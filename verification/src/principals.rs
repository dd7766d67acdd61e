//! Secrets of principals as the principal editor classifies them: a disabled
//! marker, OTP enrolment URLs, application passwords and plain passwords.
use vstd::prelude::*;

use crate::directory::{is_app_password_spec, is_otp_auth_spec, strs, Principal, PrincipalType};
use crate::text::{concat, split_chars, split_on, starts_with, str_eq};
use crate::{maybe_plural, spec_maybe_plural, Color};

pub use crate::directory::{build_app_password, parse_app_password};

verus! {

/// The marker that disables password authentication.
pub open spec fn is_disabled_spec(s: Seq<char>) -> bool {
    s == "$disabled$"@
}

/// A plain password: not the disabled marker, not an OTP URL, not an application password.
pub open spec fn is_plain_password_spec(s: Seq<char>) -> bool {
    !is_disabled_spec(s) && !is_otp_auth_spec(s) && !is_app_password_spec(s)
}

/// Classification of secret strings, including the disabled marker.
pub trait SpecialSecrets {
    spec fn secret_view(&self) -> Seq<char>;

    fn is_disabled(&self) -> (r: bool)
        ensures
            r == is_disabled_spec(self.secret_view()),
    ;

    fn is_otp_auth(&self) -> (r: bool)
        ensures
            r == is_otp_auth_spec(self.secret_view()),
    ;

    fn is_app_password(&self) -> (r: bool)
        ensures
            r == is_app_password_spec(self.secret_view()),
    ;

    fn is_password(&self) -> (r: bool)
        ensures
            r == is_plain_password_spec(self.secret_view()),
    ;
}

impl SpecialSecrets for str {
    open spec fn secret_view(&self) -> Seq<char> {
        self@
    }

    fn is_disabled(&self) -> (r: bool) {
        str_eq(self, "$disabled$")
    }

    fn is_otp_auth(&self) -> (r: bool) {
        starts_with(self, "otpauth://")
    }

    fn is_app_password(&self) -> (r: bool) {
        starts_with(self, "$app$")
    }

    fn is_password(&self) -> (r: bool) {
        !self.is_disabled() && !self.is_otp_auth() && !self.is_app_password()
    }
}

impl SpecialSecrets for String {
    open spec fn secret_view(&self) -> Seq<char> {
        self@
    }

    fn is_disabled(&self) -> (r: bool) {
        self.as_str().is_disabled()
    }

    fn is_otp_auth(&self) -> (r: bool) {
        self.as_str().is_otp_auth()
    }

    fn is_app_password(&self) -> (r: bool) {
        self.as_str().is_app_password()
    }

    fn is_password(&self) -> (r: bool) {
        self.as_str().is_password()
    }
}


// ----- principal list ---------------------------------------------------------------

/// The last non-empty segment of a path.
pub open spec fn last_segment(path: Seq<char>) -> Option<Seq<char>> {
    let pieces = split_on(path, seq!['/']);
    if exists|i: int| 0 <= i < pieces.len() && (#[trigger] pieces[i]).len() > 0 {
        Some(pieces[choose|i: int| 0 <= i < pieces.len() && pieces[i].len() > 0 && forall|j: int| i < j < pieces.len() ==> pieces[j].len() == 0])
    } else {
        None
    }
}

/// The kind of principal a list page shows, from the last segment of its
/// path: groups, mailing lists, or accounts for anything else.
pub open spec fn spec_list_kind(segment: Option<Seq<char>>) -> PrincipalType {
    match segment {
        Some(s) => if s == "groups"@ {
            PrincipalType::Group
        } else if s == "lists"@ {
            PrincipalType::List
        } else {
            PrincipalType::Individual
        },
        None => PrincipalType::Individual,
    }
}

/// The kind of principal the list at `path` shows.
pub fn list_kind(path: &str) -> (r: PrincipalType)
    ensures
        r == spec_list_kind(last_segment(path@)),
{
    let seps = vec!['/'];
    assert(seps@ =~= seq!['/']);
    let pieces = split_chars(path, &seps);
    let ghost ps = strs(pieces@);
    let mut i: usize = pieces.len();
    while i > 0
        invariant
            i <= pieces@.len(),
            ps == strs(pieces@),
            ps == split_on(path@, seq!['/']),
            forall|j: int| i <= j < ps.len() ==> (#[trigger] ps[j]).len() == 0,
        decreases i,
    {
        if pieces[i - 1].as_str().unicode_len() > 0 {
            proof {
                let k = (i - 1) as int;
                assert(ps[k].len() > 0);
                let c = choose|c: int| 0 <= c < ps.len() && ps[c].len() > 0 && forall|j: int| c < j < ps.len() ==> ps[j].len() == 0;
                assert(c == k) by {
                    if c < k {
                        assert(ps[k].len() == 0);
                    } else if c > k {
                        assert(ps[c].len() == 0);
                    }
                }
            }
            let seg = pieces[i - 1].as_str();
            return if str_eq(seg, "groups") {
                PrincipalType::Group
            } else if str_eq(seg, "lists") {
                PrincipalType::List
            } else {
                PrincipalType::Individual
            };
        }
        i = i - 1;
    }
    PrincipalType::Individual
}

/// The kinds of principal that have a list page.
pub open spec fn listed_kind(t: PrincipalType) -> bool {
    t is Individual || t is Group || t is List
}

/// Title and subtitle of a list page.
pub fn list_titles(typ: PrincipalType) -> (r: (&'static str, String))
    requires
        listed_kind(typ),
    ensures
        typ is Individual ==> r.0@ == "Accounts"@ && r.1@ == "Manage "@ + "user accounts"@,
        typ is Group ==> r.0@ == "Groups"@ && r.1@ == "Manage "@ + "groups"@,
        typ is List ==> r.0@ == "Mailing Lists"@ && r.1@ == "Manage "@ + "mailing lists"@,
{
    match typ {
        PrincipalType::Individual => ("Accounts", concat("Manage ", "user accounts")),
        PrincipalType::Group => ("Groups", concat("Manage ", "groups")),
        _ => ("Mailing Lists", concat("Manage ", "mailing lists")),
    }
}

/// The name a principal is shown under: its description, else its name.
pub open spec fn spec_display_name(p: Principal) -> Seq<char> {
    match p.description {
        Some(d) => d@,
        None => match p.name {
            Some(n) => n@,
            None => Seq::empty(),
        },
    }
}

pub fn display_name(p: &Principal) -> (r: String)
    ensures
        r@ == spec_display_name(*p),
{
    match &p.description {
        Some(d) => d.clone(),
        None => match &p.name {
            Some(n) => n.clone(),
            None => String::new(),
        },
    }
}

/// The addresses column of a row: the first address and how many aliases
/// follow it.
pub fn addresses_column(p: &Principal) -> (r: (String, String))
    ensures
        r.0@ == (if p.emails@.len() > 0 { p.emails@[0]@ } else { Seq::empty() }),
        r.1@ == spec_maybe_plural(
            (if p.emails@.len() > 0 { p.emails@.len() - 1 } else { 0 }) as nat,
            "alias"@,
            "aliases"@,
        ),
{
    let first = if p.emails.len() > 0 {
        p.emails[0].clone()
    } else {
        String::new()
    };
    let aliases = if p.emails.len() > 0 { p.emails.len() - 1 } else { 0 };
    (first, maybe_plural(aliases, "alias", "aliases"))
}

/// The colour of the badge that shows a principal's kind.
pub fn kind_color(t: PrincipalType) -> (r: Color)
    ensures
        t is Individual ==> r == Color::Green,
        t is List ==> r == Color::Blue,
        !(t is Individual || t is List) ==> r == Color::Red,
{
    match t {
        PrincipalType::Individual => Color::Green,
        PrincipalType::List => Color::Blue,
        _ => Color::Red,
    }
}

/// The message shown after deleting principals of a kind.
pub fn deleted_message(typ: PrincipalType, count: usize) -> (r: String)
    ensures
        r@ == "Deleted "@ + spec_maybe_plural(count as nat, typ.spec_item_name(false), typ.spec_item_name(true))
            + "."@,
{
    let mut r = String::from_str("Deleted ");
    let n = maybe_plural(count, typ.item_name(false), typ.item_name(true));
    r.append(n.as_str());
    r.append(".");
    r
}

} // verus!
