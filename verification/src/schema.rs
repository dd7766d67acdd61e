//! Form schemas: for each form, its fields, how their input is cleaned and
//! checked, and the schemas of the forms of the administration pages.
use vstd::prelude::*;

use crate::directory::PrincipalType;

verus! {

/// A cleaning step applied to a field's input.
#[derive(Debug, Clone, Copy, PartialEq, Eq, Structural)]
pub enum Transformer {
    Trim,
    RemoveSpaces,
    Lowercase,
    Uppercase,
}

/// A check applied to a field's cleaned input.
#[derive(Debug, Clone, Copy, PartialEq, Eq, Structural)]
pub enum Validator {
    Required,
    IsEmail,
    IsUrl,
    IsDomain,
    IsIpOrMask,
}

/// Whether a selection takes one option or several.
#[derive(Debug, Clone, Copy, PartialEq, Eq, Structural)]
pub enum SelectType {
    Single,
    Multi,
}

/// Kind of a form field; a selection lists its options as (id, label).
#[derive(Debug, Clone, PartialEq, Eq)]
pub enum Type {
    Input,
    Array,
    Text,
    Select { typ: SelectType, options: Vec<(String, String)> },
}

/// A form field.
#[derive(Debug, Clone, PartialEq, Eq)]
pub struct Field {
    pub id: String,
    pub typ: Type,
    pub transformers: Vec<Transformer>,
    pub validators: Vec<Validator>,
    pub default: Option<String>,
}

/// A form: its id and fields.
#[derive(Debug, Clone, PartialEq, Eq)]
pub struct Schema {
    pub id: String,
    pub fields: Vec<Field>,
}

/// The plain value of a field kind.
pub enum TypeView {
    Input,
    Array,
    Text,
    Select { typ: SelectType, options: Seq<(Seq<char>, Seq<char>)> },
}

/// The plain value of a field.
pub struct FieldView {
    pub id: Seq<char>,
    pub typ: TypeView,
    pub transformers: Seq<Transformer>,
    pub validators: Seq<Validator>,
    pub default: Option<Seq<char>>,
}

/// The plain value of a form.
pub struct SchemaView {
    pub id: Seq<char>,
    pub fields: Seq<FieldView>,
}

/// The characters of a pair of strings.
pub open spec fn pair_view(p: (String, String)) -> (Seq<char>, Seq<char>) {
    (p.0@, p.1@)
}

impl View for Type {
    type V = TypeView;

    open spec fn view(&self) -> TypeView {
        match self {
            Type::Input => TypeView::Input,
            Type::Array => TypeView::Array,
            Type::Text => TypeView::Text,
            Type::Select { typ, options } => TypeView::Select {
                typ: *typ,
                options: options@.map_values(|p: (String, String)| pair_view(p)),
            },
        }
    }
}

impl View for Field {
    type V = FieldView;

    open spec fn view(&self) -> FieldView {
        FieldView {
            id: self.id@,
            typ: self.typ@,
            transformers: self.transformers@,
            validators: self.validators@,
            default: match self.default {
                Some(d) => Some(d@),
                None => None,
            },
        }
    }
}

impl View for Schema {
    type V = SchemaView;

    open spec fn view(&self) -> SchemaView {
        SchemaView { id: self.id@, fields: self.fields@.map_values(|f: Field| f@) }
    }
}

/// Collects form schemas.
pub struct Builder {
    pub schemas: Vec<Schema>,
}

/// A form being described; `build` adds it to the collection.
pub struct SchemaBuilder {
    pub parent: Builder,
    pub schema: Schema,
}

/// A field being described; `build` adds it to its form.
pub struct FieldBuilder {
    pub parent: SchemaBuilder,
    pub field: Field,
}

impl View for Builder {
    type V = Seq<SchemaView>;

    open spec fn view(&self) -> Seq<SchemaView> {
        self.schemas@.map_values(|s: Schema| s@)
    }
}

/// A field with only an id: a plain input, no cleaning, no checks, no default.
pub open spec fn bare_field(id: Seq<char>) -> FieldView {
    FieldView {
        id,
        typ: TypeView::Input,
        transformers: Seq::empty(),
        validators: Seq::empty(),
        default: None,
    }
}

/// A field of the given kind, cleaning and checks, without a default.
pub open spec fn field(
    id: Seq<char>,
    typ: TypeView,
    transformers: Seq<Transformer>,
    validators: Seq<Validator>,
) -> FieldView {
    FieldView { id, typ, transformers, validators, default: None }
}

/// `f` with the default value `d`.
pub open spec fn with_default(f: FieldView, d: Seq<char>) -> FieldView {
    FieldView { default: Some(d), ..f }
}

impl Builder {
    /// An empty collection.
    pub fn new() -> (b: Builder)
        ensures
            b@ == Seq::<SchemaView>::empty(),
    {
        let b = Builder { schemas: Vec::new() };
        assert(b@ =~= Seq::<SchemaView>::empty());
        b
    }

    /// Starts a form with the id `id` and no fields.
    pub fn new_schema(self, id: &str) -> (s: SchemaBuilder)
        ensures
            s.parent@ == self@,
            s.schema@.id == id@,
            s.schema@.fields == Seq::<FieldView>::empty(),
    {
        let s = SchemaBuilder { parent: self, schema: Schema { id: String::from_str(id), fields: Vec::new() } };
        assert(s.schema@.fields =~= Seq::<FieldView>::empty());
        s
    }
}

impl SchemaBuilder {
    /// Starts a field with the id `id`.
    pub fn new_field(self, id: &str) -> (f: FieldBuilder)
        ensures
            f.parent.parent@ == self.parent@,
            f.parent.schema@ == self.schema@,
            f.field@ == bare_field(id@),
    {
        let f = FieldBuilder {
            parent: self,
            field: Field {
                id: String::from_str(id),
                typ: Type::Input,
                transformers: Vec::new(),
                validators: Vec::new(),
                default: None,
            },
        };
        assert(f.field@.transformers =~= Seq::<Transformer>::empty());
        assert(f.field@.validators =~= Seq::<Validator>::empty());
        f
    }

    /// Adds the form to the collection.
    pub fn build(self) -> (b: Builder)
        ensures
            b@ == self.parent@.push(self.schema@),
    {
        let mut b = self.parent;
        let ghost before = b@;
        b.schemas.push(self.schema);
        assert(b@ =~= before.push(self.schema@));
        b
    }
}

impl FieldBuilder {
    /// Sets the field's kind.
    pub fn typ(self, typ: Type) -> (f: FieldBuilder)
        ensures
            f.parent.parent@ == self.parent.parent@,
            f.parent.schema@ == self.parent.schema@,
            f.field@ == (FieldView { typ: typ@, ..self.field@ }),
    {
        FieldBuilder { field: Field { typ, ..self.field }, ..self }
    }

    /// Sets how the field's input is cleaned and then checked.
    pub fn input_check(self, transformers: Vec<Transformer>, validators: Vec<Validator>) -> (f: FieldBuilder)
        ensures
            f.parent.parent@ == self.parent.parent@,
            f.parent.schema@ == self.parent.schema@,
            f.field@ == (FieldView { transformers: transformers@, validators: validators@, ..self.field@ }),
    {
        FieldBuilder { field: Field { transformers, validators, ..self.field }, ..self }
    }

    /// Sets the field's default value.
    pub fn default(self, value: &str) -> (f: FieldBuilder)
        ensures
            f.parent.parent@ == self.parent.parent@,
            f.parent.schema@ == self.parent.schema@,
            f.field@ == with_default(self.field@, value@),
    {
        FieldBuilder { field: Field { default: Some(String::from_str(value)), ..self.field }, ..self }
    }

    /// Adds the field to its form.
    pub fn build(self) -> (s: SchemaBuilder)
        ensures
            s.parent@ == self.parent.parent@,
            s.schema@.id == self.parent.schema@.id,
            s.schema@.fields == self.parent.schema@.fields.push(self.field@),
    {
        let mut s = self.parent;
        let ghost before = s.schema@.fields;
        s.schema.fields.push(self.field);
        assert(s.schema@.fields =~= before.push(self.field@));
        s
    }
}

/// The live tracing form: a filter, lowercased.
pub open spec fn live_tracing_schema() -> SchemaView {
    SchemaView {
        id: "live-tracing"@,
        fields: seq![field("filter"@, TypeView::Input, seq![Transformer::Lowercase], Seq::empty())],
    }
}

impl Builder {
    /// Adds the live tracing form.
    pub fn build_live_tracing(self) -> (b: Builder)
        ensures
            b@ == self@.push(live_tracing_schema()),
    {
        let transformers = vec![Transformer::Lowercase];
        let validators: Vec<Validator> = vec![];
        assert(transformers@ =~= seq![Transformer::Lowercase]);
        assert(validators@ =~= Seq::<Validator>::empty());
        let b = self.new_schema("live-tracing").new_field("filter").input_check(transformers, validators).typ(
            Type::Input,
        ).build().build();
        proof {
            assert(b@.last().fields =~= live_tracing_schema().fields);
            assert(b@ =~= self@.push(live_tracing_schema()));
        }
        b
    }
}


/// The domain form: a domain name, without spaces and lowercased, required
/// and checked as a domain.
pub open spec fn domains_schema() -> SchemaView {
    SchemaView {
        id: "domains"@,
        fields: seq![
            field(
                "domain"@,
                TypeView::Input,
                seq![Transformer::RemoveSpaces, Transformer::Lowercase],
                seq![Validator::Required, Validator::IsDomain],
            ),
        ],
    }
}

/// The principal form: name, e-mail, aliases, URLs, description and
/// one-time password URL.
pub open spec fn principals_schema() -> SchemaView {
    SchemaView {
        id: "principals"@,
        fields: seq![
            field(
                "name"@,
                TypeView::Input,
                seq![Transformer::RemoveSpaces, Transformer::Lowercase],
                seq![Validator::Required],
            ),
            field("email"@, TypeView::Input, seq![Transformer::Trim, Transformer::Lowercase], seq![Validator::IsEmail]),
            field("aliases"@, TypeView::Array, seq![Transformer::Trim, Transformer::Lowercase], seq![Validator::IsEmail]),
            field("urls"@, TypeView::Array, seq![Transformer::Trim], seq![Validator::IsUrl]),
            field("description"@, TypeView::Input, seq![Transformer::Trim], Seq::empty()),
            field("otpauth_url"@, TypeView::Input, seq![Transformer::Trim], seq![Validator::IsUrl]),
        ],
    }
}

/// The delivery troubleshooting form and the DMARC troubleshooting form.
pub open spec fn troubleshoot_schemas() -> Seq<SchemaView> {
    seq![
        SchemaView {
            id: "troubleshoot-delivery"@,
            fields: seq![
                field(
                    "email"@,
                    TypeView::Input,
                    seq![Transformer::Lowercase, Transformer::Trim],
                    seq![Validator::Required],
                ),
            ],
        },
        SchemaView {
            id: "troubleshoot-dmarc"@,
            fields: seq![
                field(
                    "mail_from"@,
                    TypeView::Input,
                    seq![Transformer::Lowercase, Transformer::Trim],
                    seq![Validator::Required, Validator::IsEmail],
                ),
                field(
                    "remote_ip"@,
                    TypeView::Input,
                    seq![Transformer::Trim],
                    seq![Validator::Required, Validator::IsIpOrMask],
                ),
                field("ehlo_domain"@, TypeView::Input, seq![Transformer::Trim], seq![Validator::Required]),
                field("headers"@, TypeView::Input, Seq::empty(), Seq::empty()),
            ],
        },
    ]
}

/// Body parameters a message can be tested with, as (value, label).
pub open spec fn mail_body_options() -> Seq<(Seq<char>, Seq<char>)> {
    seq![
        (""@, "Not specified"@),
        ("7bit"@, "7bit"@),
        ("8bitmime"@, "8bit MIME"@),
        ("binarymime"@, "Binary MIME"@),
        ("smtputf8"@, "SMTPUTF8"@),
    ]
}

/// The spam test form and the spam training form.
pub open spec fn spam_schemas() -> Seq<SchemaView> {
    seq![
        SchemaView {
            id: "spam-test"@,
            fields: seq![
                field("message"@, TypeView::Text, Seq::empty(), seq![Validator::Required]),
                field(
                    "remote_ip"@,
                    TypeView::Text,
                    seq![Transformer::Trim],
                    seq![Validator::Required, Validator::IsIpOrMask],
                ),
                field("helo_domain"@, TypeView::Text, seq![Transformer::Trim], seq![Validator::Required]),
                field("env_from"@, TypeView::Text, seq![Transformer::Trim], Seq::empty()),
                field("env_to"@, TypeView::Array, seq![Transformer::Trim], seq![Validator::Required]),
                with_default(
                    field(
                        "env_from_flags"@,
                        TypeView::Select { typ: SelectType::Single, options: mail_body_options() },
                        Seq::empty(),
                        Seq::empty(),
                    ),
                    ""@,
                ),
            ],
        },
        SchemaView {
            id: "spam-train"@,
            fields: seq![
                field("message"@, TypeView::Text, Seq::empty(), seq![Validator::Required]),
                field("account"@, TypeView::Text, Seq::empty(), Seq::empty()),
                with_default(
                    field(
                        "train"@,
                        TypeView::Select {
                            typ: SelectType::Single,
                            options: seq![("spam"@, "SPAM"@), ("ham"@, "HAM"@)],
                        },
                        Seq::empty(),
                        Seq::empty(),
                    ),
                    "spam"@,
                ),
            ],
        },
    ]
}

fn option(id: &str, label: &str) -> (r: (String, String))
    ensures
        pair_view(r) == (id@, label@),
{
    (String::from_str(id), String::from_str(label))
}

/// Body parameters a message can be tested with.
pub fn mail_body() -> (r: Vec<(String, String)>)
    ensures
        r@.map_values(|p: (String, String)| pair_view(p)) == mail_body_options(),
{
    let r = vec![
        option("", "Not specified"),
        option("7bit", "7bit"),
        option("8bitmime", "8bit MIME"),
        option("binarymime", "Binary MIME"),
        option("smtputf8", "SMTPUTF8"),
    ];
    assert(r@.map_values(|p: (String, String)| pair_view(p)) =~= mail_body_options());
    r
}

fn list1<T>(a: T) -> (r: Vec<T>)
    ensures
        r@ == seq![a],
{
    let mut r = Vec::new();
    r.push(a);
    assert(r@ =~= seq![a]);
    r
}

fn list2<T>(a: T, b: T) -> (r: Vec<T>)
    ensures
        r@ == seq![a, b],
{
    let mut r = Vec::new();
    r.push(a);
    r.push(b);
    assert(r@ =~= seq![a, b]);
    r
}

impl Builder {
    /// Adds the domain form.
    pub fn build_domains(self) -> (b: Builder)
        ensures
            b@ == self@.push(domains_schema()),
    {
        let t = list2(Transformer::RemoveSpaces, Transformer::Lowercase);
        let v = list2(Validator::Required, Validator::IsDomain);
        let b = self.new_schema("domains").new_field("domain").typ(Type::Input).input_check(t, v).build().build();
        assert(b@.last().fields =~= domains_schema().fields);
        assert(b@ =~= self@.push(domains_schema()));
        b
    }

    /// Adds the principal form.
    pub fn build_principals(self) -> (b: Builder)
        ensures
            b@ == self@.push(principals_schema()),
    {
        let s = self.new_schema("principals");
        let s = s.new_field("name").typ(Type::Input).input_check(
            list2(Transformer::RemoveSpaces, Transformer::Lowercase),
            list1(Validator::Required),
        ).build();
        let s = s.new_field("email").typ(Type::Input).input_check(
            list2(Transformer::Trim, Transformer::Lowercase),
            list1(Validator::IsEmail),
        ).build();
        let s = s.new_field("aliases").typ(Type::Array).input_check(
            list2(Transformer::Trim, Transformer::Lowercase),
            list1(Validator::IsEmail),
        ).build();
        let s = s.new_field("urls").typ(Type::Array).input_check(list1(Transformer::Trim), list1(Validator::IsUrl)).build();
        let s = s.new_field("description").typ(Type::Input).input_check(list1(Transformer::Trim), Vec::new()).build();
        let s = s.new_field("otpauth_url").typ(Type::Input).input_check(
            list1(Transformer::Trim),
            list1(Validator::IsUrl),
        ).build();
        let b = s.build();
        assert(b@.last().fields =~= principals_schema().fields);
        assert(b@ =~= self@.push(principals_schema()));
        b
    }

    /// Adds the delivery and DMARC troubleshooting forms.
    pub fn build_troubleshoot(self) -> (b: Builder)
        ensures
            b@ == self@ + troubleshoot_schemas(),
    {
        let b = self.new_schema("troubleshoot-delivery").new_field("email").input_check(
            list2(Transformer::Lowercase, Transformer::Trim),
            list1(Validator::Required),
        ).typ(Type::Input).build().build();
        let ghost first = b@;
        let s = b.new_schema("troubleshoot-dmarc");
        let s = s.new_field("mail_from").input_check(
            list2(Transformer::Lowercase, Transformer::Trim),
            list2(Validator::Required, Validator::IsEmail),
        ).typ(Type::Input).build();
        let s = s.new_field("remote_ip").input_check(
            list1(Transformer::Trim),
            list2(Validator::Required, Validator::IsIpOrMask),
        ).typ(Type::Input).build();
        let s = s.new_field("ehlo_domain").input_check(list1(Transformer::Trim), list1(Validator::Required)).typ(
            Type::Input,
        ).build();
        let s = s.new_field("headers").typ(Type::Input).build();
        let b = s.build();
        assert(first.last().fields =~= troubleshoot_schemas()[0].fields);
        assert(b@.last().fields =~= troubleshoot_schemas()[1].fields);
        assert(b@ =~= self@ + troubleshoot_schemas());
        b
    }

    /// Adds the spam test and spam training forms.
    pub fn build_spam_manage(self) -> (b: Builder)
        ensures
            b@ == self@ + spam_schemas(),
    {
        let s = self.new_schema("spam-test");
        let s = s.new_field("message").typ(Type::Text).input_check(Vec::new(), list1(Validator::Required)).build();
        let s = s.new_field("remote_ip").typ(Type::Text).input_check(
            list1(Transformer::Trim),
            list2(Validator::Required, Validator::IsIpOrMask),
        ).build();
        let s = s.new_field("helo_domain").typ(Type::Text).input_check(
            list1(Transformer::Trim),
            list1(Validator::Required),
        ).build();
        let s = s.new_field("env_from").typ(Type::Text).input_check(list1(Transformer::Trim), Vec::new()).build();
        let s = s.new_field("env_to").typ(Type::Array).input_check(
            list1(Transformer::Trim),
            list1(Validator::Required),
        ).build();
        let s = s.new_field("env_from_flags").typ(Type::Select { typ: SelectType::Single, options: mail_body() }).default(
            "",
        ).build();
        let b = s.build();
        let ghost first = b@;
        let s = b.new_schema("spam-train");
        let s = s.new_field("message").typ(Type::Text).input_check(Vec::new(), list1(Validator::Required)).build();
        let s = s.new_field("account").typ(Type::Text).build();
        let train = vec![option("spam", "SPAM"), option("ham", "HAM")];
        assert(train@.map_values(|p: (String, String)| pair_view(p)) =~= seq![("spam"@, "SPAM"@), ("ham"@, "HAM"@)]);
        let s = s.new_field("train").default("spam").typ(Type::Select { typ: SelectType::Single, options: train }).build();
        let b = s.build();
        assert(first.last().fields =~= spam_schemas()[0].fields);
        assert(b@.last().fields =~= spam_schemas()[1].fields);
        assert(b@ =~= self@ + spam_schemas());
        b
    }
}

} // verus!
