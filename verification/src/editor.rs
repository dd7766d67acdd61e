//! The principal editor: which page edits which kind of principal, the
//! principal a new one starts from, the page title, what saving sends, and
//! how quotas, addresses and secrets move between a principal and its form.
use vstd::prelude::*;

use pwhash::sha512_crypt;

use crate::directory::{
    build_app_password, is_app_password_spec, is_otp_auth_spec, parse_app_password, spec_build_app_password, spec_parse_app_password, spec_updates, strs, updates_view, IntOrMany,
    Principal, PrincipalType, PrincipalUpdate,
};
use crate::text::{concat, is_prefix, str_eq};
use crate::principals::{is_plain_password_spec, SpecialSecrets};

verus! {

/// The kind of principal a directory page edits.
pub open spec fn spec_edit_type(object: Option<Seq<char>>) -> PrincipalType {
    match object {
        Some(o) => if o == "groups"@ {
            PrincipalType::Group
        } else if o == "lists"@ {
            PrincipalType::List
        } else if o == "tenants"@ {
            PrincipalType::Tenant
        } else if o == "domains"@ {
            PrincipalType::Domain
        } else if o == "roles"@ {
            PrincipalType::Role
        } else {
            PrincipalType::Individual
        },
        None => PrincipalType::Individual,
    }
}

pub fn edit_type(object: Option<&str>) -> (r: PrincipalType)
    ensures
        r == spec_edit_type(
            match object {
                Some(o) => Some(o@),
                None => None,
            },
        ),
{
    match object {
        Some(o) => if str_eq(o, "groups") {
            PrincipalType::Group
        } else if str_eq(o, "lists") {
            PrincipalType::List
        } else if str_eq(o, "tenants") {
            PrincipalType::Tenant
        } else if str_eq(o, "domains") {
            PrincipalType::Domain
        } else if str_eq(o, "roles") {
            PrincipalType::Role
        } else {
            PrincipalType::Individual
        },
        None => PrincipalType::Individual,
    }
}

fn strings1(a: &str) -> (r: Vec<String>)
    ensures
        strs(r@) == seq![a@],
{
    let mut r = Vec::new();
    r.push(String::from_str(a));
    assert(strs(r@) =~= seq![a@]);
    r
}

fn strings2(a: &str, b: &str) -> (r: Vec<String>)
    ensures
        strs(r@) == seq![a@, b@],
{
    let mut r = Vec::new();
    r.push(String::from_str(a));
    r.push(String::from_str(b));
    assert(strs(r@) =~= seq![a@, b@]);
    r
}

/// The roles a new principal of the kind starts with.
pub open spec fn default_roles(t: PrincipalType) -> Seq<Seq<char>> {
    match t {
        PrincipalType::Individual => seq!["user"@],
        PrincipalType::Tenant => seq!["tenant-admin"@, "user"@],
        _ => Seq::empty(),
    }
}

/// The permissions a new principal of the kind starts with.
pub open spec fn default_permissions(t: PrincipalType) -> Seq<Seq<char>> {
    match t {
        PrincipalType::Group => seq!["email-send"@, "email-receive"@],
        _ => Seq::empty(),
    }
}

/// The principal a new one of kind `typ` starts from: blank, with the
/// default roles of accounts and tenants and the default permissions of
/// groups.
pub fn new_principal(typ: PrincipalType) -> (p: Principal)
    ensures
        p.id is None && p.typ is None && p.quota is None && p.used_quota is None && p.name is None,
        p.tenant is None && p.picture is None && p.description is None,
        p.secrets@.len() == 0 && p.emails@.len() == 0 && p.member_of@.len() == 0 && p.lists@.len() == 0,
        p.members@.len() == 0 && p.disabled_permissions@.len() == 0,
        strs(p.roles@) == default_roles(typ),
        strs(p.enabled_permissions@) == default_permissions(typ),
{
    let roles = match typ {
        PrincipalType::Individual => strings1("user"),
        PrincipalType::Tenant => strings2("tenant-admin", "user"),
        _ => Vec::new(),
    };
    let enabled_permissions = match typ {
        PrincipalType::Group => strings2("email-send", "email-receive"),
        _ => Vec::new(),
    };
    proof {
        if !(typ is Individual || typ is Tenant) {
            assert(strs(roles@) =~= Seq::<Seq<char>>::empty());
        }
        if !(typ is Group) {
            assert(strs(enabled_permissions@) =~= Seq::<Seq<char>>::empty());
        }
    }
    Principal {
        id: None,
        typ: None,
        quota: None,
        used_quota: None,
        name: None,
        tenant: None,
        picture: None,
        secrets: Vec::new(),
        emails: Vec::new(),
        member_of: Vec::new(),
        roles,
        lists: Vec::new(),
        members: Vec::new(),
        enabled_permissions,
        disabled_permissions: Vec::new(),
        description: None,
    }
}

/// The kinds of principal the editor has pages for.
pub open spec fn editable(t: PrincipalType) -> bool {
    t is Individual || t is Group || t is List || t is Tenant || t is Domain || t is Role
}

/// The word for a kind of principal in the editor's title.
pub open spec fn title_word(t: PrincipalType) -> Seq<char> {
    match t {
        PrincipalType::Individual => "Account"@,
        PrincipalType::Group => "Group"@,
        PrincipalType::List => "List"@,
        PrincipalType::Tenant => "Tenant"@,
        PrincipalType::Domain => "Domain"@,
        _ => "Role"@,
    }
}

/// The editor's title: `Update '<name>' <kind>` for an existing principal,
/// `Create <kind>` for a new one.
pub open spec fn spec_edit_title(t: PrincipalType, name: Option<Seq<char>>) -> Seq<char> {
    match name {
        Some(n) => "Update '"@ + n + "' "@ + title_word(t),
        None => "Create "@ + title_word(t),
    }
}

pub fn edit_title(typ: PrincipalType, name: Option<&str>) -> (r: String)
    requires
        editable(typ),
    ensures
        r@ == spec_edit_title(
            typ,
            match name {
                Some(n) => Some(n@),
                None => None,
            },
        ),
{
    let word = match typ {
        PrincipalType::Individual => "Account",
        PrincipalType::Group => "Group",
        PrincipalType::List => "List",
        PrincipalType::Tenant => "Tenant",
        PrincipalType::Domain => "Domain",
        _ => "Role",
    };
    match name {
        Some(n) => {
            let mut r = concat("Update '", n);
            r.append("' ");
            r.append(word);
            r
        },
        None => concat("Create ", word),
    }
}

/// The kinds of principal whose names the editor offers for a kind.
pub open spec fn spec_needed_types(t: PrincipalType) -> Seq<PrincipalType> {
    match t {
        PrincipalType::Individual => seq![
            PrincipalType::Role,
            PrincipalType::Group,
            PrincipalType::Tenant,
            PrincipalType::List,
        ],
        PrincipalType::Group => seq![
            PrincipalType::Individual,
            PrincipalType::Group,
            PrincipalType::Tenant,
            PrincipalType::List,
        ],
        PrincipalType::Domain => seq![PrincipalType::Tenant],
        PrincipalType::Tenant => seq![PrincipalType::Role],
        PrincipalType::Role => seq![PrincipalType::Role, PrincipalType::Tenant],
        PrincipalType::List => seq![PrincipalType::Individual, PrincipalType::Group, PrincipalType::Tenant],
        _ => Seq::empty(),
    }
}

pub fn needed_types(typ: PrincipalType) -> (r: Vec<PrincipalType>)
    ensures
        r@ == spec_needed_types(typ),
{
    let r = match typ {
        PrincipalType::Individual => vec![
            PrincipalType::Role,
            PrincipalType::Group,
            PrincipalType::Tenant,
            PrincipalType::List,
        ],
        PrincipalType::Group => vec![
            PrincipalType::Individual,
            PrincipalType::Group,
            PrincipalType::Tenant,
            PrincipalType::List,
        ],
        PrincipalType::Domain => vec![PrincipalType::Tenant],
        PrincipalType::Tenant => vec![PrincipalType::Role],
        PrincipalType::Role => vec![PrincipalType::Role, PrincipalType::Tenant],
        PrincipalType::List => vec![PrincipalType::Individual, PrincipalType::Group, PrincipalType::Tenant],
        _ => Vec::new(),
    };
    assert(r@ =~= spec_needed_types(typ));
    r
}

/// What saving the editor sends.
#[derive(Debug, Clone, PartialEq, Eq)]
pub enum PrincipalSave {
    /// Patch the existing principal `name` with the updates.
    Update { name: String, updates: Vec<PrincipalUpdate> },
    /// Nothing changed: no request.
    Unchanged,
    /// Create the principal as edited.
    Create,
}

/// The text of an optional name, empty when absent.
pub open spec fn name_or_empty(n: Option<String>) -> Seq<char> {
    match n {
        Some(s) => s@,
        None => Seq::empty(),
    }
}

/// Saving an existing principal patches it with the updates that turn it
/// into the edited one, unless there are none; a blank one is created.
pub fn plan_save(current: Principal, changes: Principal) -> (r: PrincipalSave)
    ensures
        current.spec_is_blank() ==> r is Create,
        !current.spec_is_blank() && spec_updates(current, changes).len() == 0 ==> r is Unchanged,
        !current.spec_is_blank() && spec_updates(current, changes).len() > 0 ==> (r matches PrincipalSave::Update {
            name,
            updates,
        } && name@ == name_or_empty(current.name) && updates_view(updates@) == spec_updates(current, changes)),
{
    if current.is_blank() {
        PrincipalSave::Create
    } else {
        let name = match &current.name {
            Some(n) => n.clone(),
            None => String::new(),
        };
        let ghost cur = current;
        let updates = current.into_updates(changes);
        assert(updates_view(updates@).len() == updates@.len());
        if updates.len() > 0 {
            PrincipalSave::Update { name, updates }
        } else {
            PrincipalSave::Unchanged
        }
    }
}

/// The form field that shows the quota at position `pos` of a tenant's
/// quota list (the sixth position has no field).
pub open spec fn spec_quota_field(pos: int) -> Option<Seq<char>> {
    if pos == 0 {
        Some("quota"@)
    } else if pos == 1 {
        Some("max_accounts"@)
    } else if pos == 2 {
        Some("max_groups"@)
    } else if pos == 3 {
        Some("max_resources"@)
    } else if pos == 4 {
        Some("max_locations"@)
    } else if pos == 6 {
        Some("max_lists"@)
    } else if pos == 7 {
        Some("max_other"@)
    } else if pos == 8 {
        Some("max_domains"@)
    } else if pos == 9 {
        Some("max_tenants"@)
    } else if pos == 10 {
        Some("max_roles"@)
    } else if pos == 11 {
        Some("max_api_keys"@)
    } else {
        None
    }
}

pub fn quota_field(pos: usize) -> (r: Option<&'static str>)
    ensures
        (match r {
            Some(f) => Some(f@),
            None => None,
        }) == spec_quota_field(pos as int),
{
    match pos {
        0 => Some("quota"),
        1 => Some("max_accounts"),
        2 => Some("max_groups"),
        3 => Some("max_resources"),
        4 => Some("max_locations"),
        6 => Some("max_lists"),
        7 => Some("max_other"),
        8 => Some("max_domains"),
        9 => Some("max_tenants"),
        10 => Some("max_roles"),
        11 => Some("max_api_keys"),
        _ => None,
    }
}

/// The form values of a list of quotas: each non-zero quota with a field,
/// in order.
pub open spec fn list_quota_values(qs: Seq<u64>) -> Seq<(Seq<char>, u64)>
    decreases qs.len(),
{
    if qs.len() == 0 {
        Seq::empty()
    } else {
        let prev = list_quota_values(qs.drop_last());
        let pos = qs.len() - 1;
        if qs.last() > 0 && spec_quota_field(pos) is Some {
            prev.push((spec_quota_field(pos).unwrap(), qs.last()))
        } else {
            prev
        }
    }
}

/// The form values of a principal's quota: a single non-zero quota, or the
/// non-zero quotas of a list by field.
pub open spec fn spec_quota_values(q: Option<IntOrMany>) -> Seq<(Seq<char>, u64)> {
    match q {
        Some(IntOrMany::Int(n)) => if n > 0 {
            seq![("quota"@, n)]
        } else {
            Seq::empty()
        },
        Some(IntOrMany::Many(qs)) => list_quota_values(qs@),
        None => Seq::empty(),
    }
}

pub fn quota_values(quota: &Option<IntOrMany>) -> (r: Vec<(&'static str, u64)>)
    ensures
        r@.map_values(|p: (&'static str, u64)| (p.0@, p.1)) == spec_quota_values(*quota),
{
    let mut out: Vec<(&'static str, u64)> = Vec::new();
    match quota {
        Some(IntOrMany::Int(n)) => {
            if *n > 0 {
                out.push(("quota", *n));
            }
            assert(out@.map_values(|p: (&'static str, u64)| (p.0@, p.1)) =~= spec_quota_values(*quota));
        },
        Some(IntOrMany::Many(qs)) => {
            let mut i: usize = 0;
            while i < qs.len()
                invariant
                    i <= qs@.len(),
                    out@.map_values(|p: (&'static str, u64)| (p.0@, p.1)) == list_quota_values(qs@.take(i as int)),
                decreases qs.len() - i,
            {
                assert(qs@.take(i + 1).drop_last() =~= qs@.take(i as int));
                if qs[i] > 0 {
                    match quota_field(i) {
                        Some(f) => {
                            let ghost before = out@.map_values(|p: (&'static str, u64)| (p.0@, p.1));
                            out.push((f, qs[i]));
                            assert(out@.map_values(|p: (&'static str, u64)| (p.0@, p.1)) =~= before.push(
                                (f@, qs@[i as int]),
                            ));
                        },
                        None => {},
                    }
                }
                i = i + 1;
            }
            assert(qs@.take(qs@.len() as int) =~= qs@);
        },
        None => {
            assert(out@.map_values(|p: (&'static str, u64)| (p.0@, p.1)) =~= spec_quota_values(*quota));
        },
    }
    out
}

/// The quota a form sets: for a tenant the list of its twelve quota fields
/// (absent ones zero), for any other principal its single quota field.
pub fn quota_from_form(typ: PrincipalType, tenant_values: Vec<u64>, quota: u64) -> (r: IntOrMany)
    requires
        typ is Tenant ==> tenant_values@.len() == 12,
    ensures
        typ is Tenant ==> (r matches IntOrMany::Many(qs) && qs@ == tenant_values@),
        !(typ is Tenant) ==> r == IntOrMany::Int(quota),
{
    if matches!(typ, PrincipalType::Tenant) {
        IntOrMany::Many(tenant_values)
    } else {
        IntOrMany::Int(quota)
    }
}

/// The addresses a form sets: the main address, then the aliases, empty
/// ones left out.
pub open spec fn spec_form_emails(email: Seq<char>, aliases: Seq<Seq<char>>) -> Seq<Seq<char>> {
    (seq![email] + aliases).filter(|e: Seq<char>| e.len() > 0)
}

pub fn form_emails(email: String, aliases: Vec<String>) -> (r: Vec<String>)
    ensures
        strs(r@) == spec_form_emails(email@, strs(aliases@)),
{
    let ghost all = seq![email@] + strs(aliases@);
    let mut out: Vec<String> = Vec::new();
    let ghost f = |e: Seq<char>| e.len() > 0;
    if email.as_str().unicode_len() > 0 {
        out.push(email);
    }
    assert(strs(out@) =~= all.take(1).filter(f)) by {
        reveal(Seq::filter);
        assert(all.take(1).drop_last() =~= Seq::<Seq<char>>::empty());
        assert(Seq::<Seq<char>>::empty().filter(f) =~= Seq::<Seq<char>>::empty());
        assert(all.take(1).last() == email@);
    }
    let mut aliases = aliases;
    let ghost rest = aliases@;
    let n = aliases.len();
    let mut i: usize = 0;
    while i < n
        invariant
            n == rest.len(),
            i <= n,
            aliases@ == rest.skip(i as int),
            all == seq![all[0]] + strs(rest),
            strs(out@) == all.take(i + 1).filter(f),
            f == (|e: Seq<char>| e.len() > 0),
        decreases n - i,
    {
        let alias = aliases.remove(0);
        proof {
            assert(alias == rest[i as int]);
            assert(aliases@ =~= rest.skip(i + 1));
            assert(all.take(i + 2).drop_last() =~= all.take(i + 1));
            assert(all[i + 1] == alias@);
            reveal(Seq::filter);
        }
        let ghost before = strs(out@);
        if alias.as_str().unicode_len() > 0 {
            out.push(alias);
            assert(strs(out@) =~= before.push(all[i + 1]));
        }
        i = i + 1;
    }
    assert(all.take(n + 1) =~= all);
    out
}

/// What the form shows of a principal's secrets: the names of its
/// application passwords, in order, and its last one-time password URL.
pub open spec fn spec_secret_fields(secrets: Seq<Seq<char>>) -> (Seq<Seq<char>>, Option<Seq<char>>)
    decreases secrets.len(),
{
    if secrets.len() == 0 {
        (Seq::empty(), None)
    } else {
        let prev = spec_secret_fields(secrets.drop_last());
        let s = secrets.last();
        match spec_parse_app_password(s) {
            Some((app, _)) => (prev.0.push(app), prev.1),
            None => if is_otp_auth_spec(s) {
                (prev.0, Some(s))
            } else {
                prev
            },
        }
    }
}

pub fn secret_fields(secrets: &Vec<String>) -> (r: (Vec<String>, Option<String>))
    ensures
        strs(r.0@) == spec_secret_fields(strs(secrets@)).0,
        (match r.1 {
            Some(s) => Some(s@),
            None => None,
        }) == spec_secret_fields(strs(secrets@)).1,
{
    let ghost all = strs(secrets@);
    let mut apps: Vec<String> = Vec::new();
    let mut otp: Option<String> = None;
    let mut i: usize = 0;
    while i < secrets.len()
        invariant
            i <= secrets@.len(),
            all == strs(secrets@),
            strs(apps@) == spec_secret_fields(all.take(i as int)).0,
            (match otp {
                Some(s) => Some(s@),
                None => None,
            }) == spec_secret_fields(all.take(i as int)).1,
        decreases secrets.len() - i,
    {
        assert(all.take(i + 1).drop_last() =~= all.take(i as int));
        assert(all[i as int] == secrets@[i as int]@);
        let secret = secrets[i].as_str();
        match parse_app_password(secret) {
            Some((app, _)) => {
                let ghost before = strs(apps@);
                apps.push(app);
                assert(strs(apps@) =~= before.push(spec_parse_app_password(secret@).unwrap().0));
            },
            None => {
                if secret.is_otp_auth() {
                    otp = Some(String::from_str(secret));
                }
            },
        }
        i = i + 1;
    }
    assert(all.take(secrets@.len() as int) =~= all);
    (apps, otp)
}


// ----- secrets set by a form ----------------------------------------------------

/// Whether `pwhash::sha512_crypt::verify(password, hash)` accepts `hash` as
/// a hash of `password` (a function of the two texts).
pub uninterp spec fn spec_sha512_verifies(password: Seq<char>, hash: Seq<char>) -> bool;

/// `pwhash::sha512_crypt::hash(password)`: a SHA-512 crypt hash of the
/// password with a random salt, `$6$<salt>$<checksum>`, which
/// `sha512_crypt::verify` accepts for that password (it re-hashes the
/// password with the salt read back from the hash); `None` when the system's
/// random number generator could not be opened. Which salt is drawn is left
/// unsaid.
#[verifier::external_body]
fn hash_password(password: &str) -> (r: Option<String>)
    ensures
        r matches Some(h) ==> is_prefix("$6$"@, h@),
        r matches Some(h) ==> spec_sha512_verifies(password@, h@),
{
    sha512_crypt::hash(password).ok()
}

/// The secrets of an account form: a hash of the password when one was
/// typed (one that verifies against it), none otherwise; `None` when the
/// hash could not be made.
pub fn account_secrets(password: &str) -> (r: Option<Vec<String>>)
    ensures
        password@.len() == 0 ==> (r matches Some(v) && v@.len() == 0),
        password@.len() > 0 && r is Some ==> (r matches Some(v) && v@.len() == 1 && is_prefix("$6$"@, v@[0]@)
            && spec_sha512_verifies(password@, v@[0]@)),
{
    if password.unicode_len() == 0 {
        Some(Vec::new())
    } else {
        match hash_password(password) {
            Some(h) => {
                let mut v = Vec::new();
                v.push(h);
                Some(v)
            },
            None => None,
        }
    }
}

/// The application passwords a form lists, each with an empty secret.
pub open spec fn app_secrets(names: Seq<Seq<char>>) -> Seq<Seq<char>> {
    names.map_values(|n: Seq<char>| spec_build_app_password(n, Seq::empty()))
}

/// The secrets of a principal form: its application passwords (with empty
/// secrets), then a hash of the new password or else the API secret, then
/// the one-time password URL; `None` when the password could not be hashed.
pub fn form_secrets(app_names: &Vec<String>, password: Option<&str>, api_secret: Option<String>, otpauth: Option<String>) -> (r: Option<Vec<String>>)
    requires
        forall|i: int| 0 <= i < app_names@.len() ==> (#[trigger] app_names@[i])@.len() <= usize::MAX / 8,
    ensures
        r is None ==> password is Some,
        r matches Some(v) ==> {
            let n = app_names@.len() as int;
            let mid = if password is Some || api_secret is Some { 1int } else { 0int };
            &&& v@.len() == n + mid + if otpauth is Some { 1int } else { 0int }
            &&& strs(v@).take(n) == app_secrets(strs(app_names@))
            &&& (password matches Some(p) ==> is_prefix("$6$"@, v@[n]@) && spec_sha512_verifies(p@, v@[n]@))
            &&& (password is None ==> (api_secret matches Some(s) ==> v@[n]@ == s@))
            &&& (otpauth matches Some(o) ==> v@[v@.len() - 1]@ == o@)
        },
{
    let mut secrets: Vec<String> = Vec::new();
    let mut i: usize = 0;
    while i < app_names.len()
        invariant
            i <= app_names@.len(),
            forall|j: int| 0 <= j < app_names@.len() ==> (#[trigger] app_names@[j])@.len() <= usize::MAX / 8,
            strs(secrets@) == app_secrets(strs(app_names@).take(i as int)),
        decreases app_names.len() - i,
    {
        let s = build_app_password(app_names[i].as_str(), "");
        let ghost before = strs(secrets@);
        secrets.push(s);
        proof {
            reveal_strlit("");
            assert(""@ =~= Seq::<char>::empty());
            assert(strs(app_names@).take(i + 1) =~= strs(app_names@).take(i as int).push(app_names@[i as int]@));
            assert(strs(secrets@) =~= before.push(spec_build_app_password(app_names@[i as int]@, Seq::empty())));
            assert(app_secrets(strs(app_names@).take(i + 1)) =~= app_secrets(strs(app_names@).take(i as int)).push(
                spec_build_app_password(app_names@[i as int]@, Seq::empty()),
            ));
        }
        i = i + 1;
    }
    proof {
        assert(strs(app_names@).take(app_names@.len() as int) =~= strs(app_names@));
    }
    let ghost apps = strs(secrets@);
    match password {
        Some(p) => match hash_password(p) {
            Some(h) => secrets.push(h),
            None => {
                return None;
            },
        },
        None => match api_secret {
            Some(s) => secrets.push(s),
            None => {},
        },
    }
    match otpauth {
        Some(o) => secrets.push(o),
        None => {},
    }
    assert(strs(secrets@).take(app_names@.len() as int) =~= apps);
    Some(secrets)
}


/// Secret classification law: a password hash made by the form (`$6$...`)
/// is classified as a plain password: not the disabled marker, not a
/// one-time password URL, not an application password.
pub proof fn lemma_hash_is_plain_password(h: Seq<char>)
    requires
        is_prefix("$6$"@, h),
    ensures
        is_plain_password_spec(h),
{
    reveal_strlit("$6$");
    reveal_strlit("$disabled$");
    reveal_strlit("otpauth://");
    reveal_strlit("$app$");
    assert(h.subrange(0, 3) == "$6$"@);
    assert(h[1] == h.subrange(0, 3)[1]);
    assert(h[0] == h.subrange(0, 3)[0]);
    assert(h[1] == '6');
    assert(h[0] == '$');
    if h == "$disabled$"@ {
        assert("$disabled$"@[1] == 'd');
    }
    if is_otp_auth_spec(h) {
        assert(h[0] == h.subrange(0, 10)[0]);
        assert("otpauth://"@[0] == 'o');
    }
    if is_app_password_spec(h) {
        assert(h[1] == h.subrange(0, 5)[1]);
        assert("$app$"@[1] == 'a');
    }
}

// ----- group membership ----------------------------------------------------

/// The server's reply when a group named in an account's form is looked up:
/// the principal found (with its type, if any), "not found", not signed in,
/// or another failure with its description.
#[derive(Debug, Clone, PartialEq, Eq)]
pub enum GroupLookup {
    Found(Option<PrincipalType>),
    NotFound,
    Unauthorized,
    Failed(String),
}

/// Checks a group an account is to be a member of: the name is accepted
/// when the principal is a group; otherwise the form shows why not.
pub fn member_of_check(name: String, reply: GroupLookup) -> (r: Result<String, String>)
    ensures
        match reply {
            GroupLookup::Found(Some(PrincipalType::Group)) => r matches Ok(n) && n@ == name@,
            GroupLookup::Found(_) => r matches Err(e) && e@ == "Principal is not a group"@,
            GroupLookup::NotFound => r matches Err(e) && e@ == "Group does not exist"@,
            GroupLookup::Unauthorized => r matches Err(e) && e@ == "Unauthorized"@,
            GroupLookup::Failed(d) => r matches Err(e) && e@ == "Request failed: "@ + d@,
        },
{
    match reply {
        GroupLookup::Found(Some(PrincipalType::Group)) => Ok(name),
        GroupLookup::Found(_) => Err(String::from_str("Principal is not a group")),
        GroupLookup::NotFound => Err(String::from_str("Group does not exist")),
        GroupLookup::Unauthorized => Err(String::from_str("Unauthorized")),
        GroupLookup::Failed(d) => Err(concat("Request failed: ", d.as_str())),
    }
}

// ----- signing keys of a new domain ----------------------------------------

/// A DKIM signing algorithm.
#[derive(Debug, Clone, Copy, PartialEq, Eq, Structural)]
pub enum DkimAlgorithm {
    Ed25519,
    Rsa,
}

/// The DKIM keys requested after a principal was created: for a new domain,
/// when the creation succeeded and the user may create DKIM signatures,
/// an Ed25519 key and then an RSA key for the domain's name (empty when it
/// has none); nothing otherwise.
pub fn dkim_requests(typ: Option<PrincipalType>, created: bool, may_create_dkim: bool, name: Option<&str>) -> (r: Vec<(DkimAlgorithm, String)>)
    ensures
        (typ == Some(PrincipalType::Domain) && created && may_create_dkim) ==> {
            &&& r@.len() == 2
            &&& r@[0].0 == DkimAlgorithm::Ed25519 && r@[1].0 == DkimAlgorithm::Rsa
            &&& r@[0].1@ == name_text(name) && r@[1].1@ == name_text(name)
        },
        !(typ == Some(PrincipalType::Domain) && created && may_create_dkim) ==> r@.len() == 0,
{
    let mut r: Vec<(DkimAlgorithm, String)> = Vec::new();
    let is_domain = match typ {
        Some(PrincipalType::Domain) => true,
        _ => false,
    };
    if is_domain && created && may_create_dkim {
        let domain = match name {
            Some(n) => String::from_str(n),
            None => String::new(),
        };
        r.push((DkimAlgorithm::Ed25519, domain.clone()));
        r.push((DkimAlgorithm::Rsa, domain));
    }
    r
}

/// The characters of an optional name, empty when absent.
pub open spec fn name_text(name: Option<&str>) -> Seq<char> {
    match name {
        Some(n) => n@,
        None => Seq::empty(),
    }
}

} // verus!
