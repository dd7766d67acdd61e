//! Directory principals (accounts, groups, lists, domains, ...) and the set of
//! field updates that turns one principal into another.
use vstd::prelude::*;

use base64::engine::general_purpose::STANDARD;
use base64::Engine;
use vstd::string::StringSliceAdditionalSpecFns;
use vstd::utf8::{decode_utf8, encode_utf8, valid_utf8};

use crate::text::{chars_of, concat, is_prefix, starts_with, str_eq};

verus! {

/// A quota: one limit, or one limit per object kind (tenants).
#[derive(Debug, Clone, PartialEq, Eq)]
pub enum IntOrMany {
    Int(u64),
    Many(Vec<u64>),
}

/// The plain value of an [`IntOrMany`].
pub enum QuotaView {
    Int(u64),
    Many(Seq<u64>),
}

impl View for IntOrMany {
    type V = QuotaView;

    open spec fn view(&self) -> QuotaView {
        match self {
            IntOrMany::Int(i) => QuotaView::Int(*i),
            IntOrMany::Many(v) => QuotaView::Many(v@),
        }
    }
}

/// The kind of a principal.
#[derive(Debug, Default, Clone, Copy, PartialEq, Eq, Hash, Structural)]
pub enum PrincipalType {
    #[default]
    Individual,
    Group,
    Resource,
    Location,
    List,
    Other,
    Domain,
    Tenant,
    Role,
}

/// A field of a principal that an update can address.
#[derive(Debug, Clone, Copy, PartialEq, Eq, Structural)]
pub enum PrincipalField {
    Name,
    Type,
    Quota,
    UsedQuota,
    Description,
    Secrets,
    Emails,
    MemberOf,
    Members,
    Tenant,
    Roles,
    Lists,
    EnabledPermissions,
    DisabledPermissions,
    Picture,
}

/// What an update does to its field.
#[derive(Debug, Clone, Copy, PartialEq, Eq, Structural)]
pub enum PrincipalAction {
    SetValue,
    AddItem,
    RemoveItem,
}

/// The value carried by an update.
#[derive(Debug, Clone, PartialEq, Eq)]
pub enum PrincipalValue {
    String(String),
    StringList(Vec<String>),
    Integer(u64),
    IntegerList(Vec<u64>),
}

/// The plain value of a [`PrincipalValue`].
pub enum ValueView {
    String(Seq<char>),
    StringList(Seq<Seq<char>>),
    Integer(u64),
    IntegerList(Seq<u64>),
}

/// The characters of each string of a sequence.
pub open spec fn strs(v: Seq<String>) -> Seq<Seq<char>> {
    v.map_values(|s: String| s@)
}

impl View for PrincipalValue {
    type V = ValueView;

    open spec fn view(&self) -> ValueView {
        match self {
            PrincipalValue::String(s) => ValueView::String(s@),
            PrincipalValue::StringList(v) => ValueView::StringList(strs(v@)),
            PrincipalValue::Integer(i) => ValueView::Integer(*i),
            PrincipalValue::IntegerList(v) => ValueView::IntegerList(v@),
        }
    }
}

/// One change to one field of a principal.
#[derive(Debug, Clone, PartialEq, Eq)]
pub struct PrincipalUpdate {
    pub action: PrincipalAction,
    pub field: PrincipalField,
    pub value: PrincipalValue,
}

/// The plain value of a [`PrincipalUpdate`].
pub struct UpdateView {
    pub action: PrincipalAction,
    pub field: PrincipalField,
    pub value: ValueView,
}

impl View for PrincipalUpdate {
    type V = UpdateView;

    open spec fn view(&self) -> UpdateView {
        UpdateView { action: self.action, field: self.field, value: self.value@ }
    }
}

/// The plain values of a sequence of updates.
pub open spec fn updates_view(u: Seq<PrincipalUpdate>) -> Seq<UpdateView> {
    u.map_values(|x: PrincipalUpdate| x@)
}

/// A directory principal as the server reports it.
#[derive(Debug, Default, Clone, PartialEq, Eq)]
pub struct Principal {
    pub id: Option<u32>,
    pub typ: Option<PrincipalType>,
    pub quota: Option<IntOrMany>,
    pub used_quota: Option<u64>,
    pub name: Option<String>,
    pub tenant: Option<String>,
    pub picture: Option<String>,
    pub secrets: Vec<String>,
    pub emails: Vec<String>,
    pub member_of: Vec<String>,
    pub roles: Vec<String>,
    pub lists: Vec<String>,
    pub members: Vec<String>,
    pub enabled_permissions: Vec<String>,
    pub disabled_permissions: Vec<String>,
    pub description: Option<String>,
}

// ----- secrets -------------------------------------------------------------

/// A one-time-password enrolment URL.
pub open spec fn is_otp_auth_spec(s: Seq<char>) -> bool {
    is_prefix("otpauth://"@, s)
}

/// An application password (`$app$<base64 name>$<secret>`).
pub open spec fn is_app_password_spec(s: Seq<char>) -> bool {
    is_prefix("$app$"@, s)
}

/// A plain password: neither an OTP URL nor an application password.
pub open spec fn is_password_spec(s: Seq<char>) -> bool {
    !is_otp_auth_spec(s) && !is_app_password_spec(s)
}

/// Classification of secret strings.
pub trait SpecialSecrets {
    spec fn secret_view(&self) -> Seq<char>;

    fn is_otp_auth(&self) -> (r: bool)
        ensures
            r == is_otp_auth_spec(self.secret_view()),
    ;

    fn is_app_password(&self) -> (r: bool)
        ensures
            r == is_app_password_spec(self.secret_view()),
    ;

    fn is_password(&self) -> (r: bool)
        ensures
            r == is_password_spec(self.secret_view()),
    ;
}

impl SpecialSecrets for str {
    open spec fn secret_view(&self) -> Seq<char> {
        self@
    }

    fn is_otp_auth(&self) -> (r: bool) {
        starts_with(self, "otpauth://")
    }

    fn is_app_password(&self) -> (r: bool) {
        starts_with(self, "$app$")
    }

    fn is_password(&self) -> (r: bool) {
        !self.is_otp_auth() && !self.is_app_password()
    }
}

impl SpecialSecrets for String {
    open spec fn secret_view(&self) -> Seq<char> {
        self@
    }

    fn is_otp_auth(&self) -> (r: bool) {
        self.as_str().is_otp_auth()
    }

    fn is_app_password(&self) -> (r: bool) {
        self.as_str().is_app_password()
    }

    fn is_password(&self) -> (r: bool) {
        self.as_str().is_password()
    }
}

// ----- the update set ------------------------------------------------------

/// The text of an optional string, empty when absent.
pub open spec fn opt_str(o: Option<String>) -> Seq<char> {
    match o {
        Some(s) => s@,
        None => Seq::empty(),
    }
}

/// A quota, `Int(0)` when absent.
pub open spec fn quota_or_zero(o: Option<IntOrMany>) -> QuotaView {
    match o {
        Some(q) => q@,
        None => QuotaView::Int(0),
    }
}

/// `Set field = chg` when the texts of `cur` and `chg` differ.
pub open spec fn set_if_changed(field: PrincipalField, cur: Option<String>, chg: Option<String>) -> Seq<UpdateView> {
    if opt_str(cur) != opt_str(chg) {
        seq![UpdateView { action: PrincipalAction::SetValue, field, value: ValueView::String(opt_str(chg)) }]
    } else {
        Seq::empty()
    }
}

/// `Set quota = chg` when the quotas differ.
pub open spec fn quota_update(cur: Option<IntOrMany>, chg: Option<IntOrMany>) -> Seq<UpdateView> {
    if quota_or_zero(cur) != quota_or_zero(chg) {
        seq![UpdateView {
            action: PrincipalAction::SetValue,
            field: PrincipalField::Quota,
            value: match quota_or_zero(chg) {
                QuotaView::Int(v) => ValueView::Integer(v),
                QuotaView::Many(v) => ValueView::IntegerList(v),
            },
        }]
    } else {
        Seq::empty()
    }
}

/// One update per item, all with the same action and field.
pub open spec fn as_items(action: PrincipalAction, field: PrincipalField, items: Seq<Seq<char>>) -> Seq<UpdateView> {
    items.map_values(|s: Seq<char>| UpdateView { action, field, value: ValueView::String(s) })
}

/// A new secret is added when it is no application password and not yet present.
pub open spec fn secret_is_added(cur: Seq<Seq<char>>) -> spec_fn(Seq<char>) -> bool {
    |s: Seq<char>| !is_app_password_spec(s) && !cur.contains(s)
}

/// Some added secret is a plain password.
pub open spec fn password_changed(cur: Seq<Seq<char>>, chg: Seq<Seq<char>>) -> bool {
    exists|i: int| 0 <= i < chg.len() && secret_is_added(cur)(chg[i]) && is_password_spec(chg[i])
}

/// Some new secret is a prefix of `s`.
pub open spec fn has_prefix_in(chg: Seq<Seq<char>>, s: Seq<char>) -> bool {
    exists|j: int| 0 <= j < chg.len() && is_prefix(chg[j], s)
}

/// An old secret is removed: a special secret that no new secret is a prefix
/// of, or a plain password when a new password was added.
pub open spec fn secret_is_removed(chg: Seq<Seq<char>>, changed: bool) -> spec_fn(Seq<char>) -> bool {
    |s: Seq<char>| if !is_password_spec(s) { !has_prefix_in(chg, s) } else { changed }
}

/// Updates of the secrets.
pub open spec fn secret_updates(cur: Seq<Seq<char>>, chg: Seq<Seq<char>>) -> Seq<UpdateView> {
    as_items(PrincipalAction::AddItem, PrincipalField::Secrets, chg.filter(secret_is_added(cur)))
        + as_items(
        PrincipalAction::RemoveItem,
        PrincipalField::Secrets,
        cur.filter(secret_is_removed(chg, password_changed(cur, chg))),
    )
}

/// Items of `s` missing from `other`.
pub open spec fn not_in(other: Seq<Seq<char>>) -> spec_fn(Seq<char>) -> bool {
    |s: Seq<char>| !other.contains(s)
}

/// Updates of a list field: additions of new items, then removals of dropped items.
pub open spec fn list_updates(field: PrincipalField, cur: Seq<Seq<char>>, chg: Seq<Seq<char>>) -> Seq<UpdateView> {
    as_items(PrincipalAction::AddItem, field, chg.filter(not_in(cur)))
        + as_items(PrincipalAction::RemoveItem, field, cur.filter(not_in(chg)))
}

/// All the updates that turn `cur` into `chg`, in the order the server applies them.
pub open spec fn spec_updates(cur: Principal, chg: Principal) -> Seq<UpdateView> {
    set_if_changed(PrincipalField::Name, cur.name, chg.name)
        + set_if_changed(PrincipalField::Description, cur.description, chg.description)
        + set_if_changed(PrincipalField::Tenant, cur.tenant, chg.tenant)
        + set_if_changed(PrincipalField::Picture, cur.picture, chg.picture)
        + quota_update(cur.quota, chg.quota)
        + secret_updates(strs(cur.secrets@), strs(chg.secrets@))
        + list_updates(PrincipalField::Emails, strs(cur.emails@), strs(chg.emails@))
        + list_updates(PrincipalField::MemberOf, strs(cur.member_of@), strs(chg.member_of@))
        + list_updates(PrincipalField::Members, strs(cur.members@), strs(chg.members@))
        + list_updates(PrincipalField::Roles, strs(cur.roles@), strs(chg.roles@))
        + list_updates(PrincipalField::Lists, strs(cur.lists@), strs(chg.lists@))
        + list_updates(PrincipalField::EnabledPermissions, strs(cur.enabled_permissions@), strs(chg.enabled_permissions@))
        + list_updates(PrincipalField::DisabledPermissions, strs(cur.disabled_permissions@), strs(chg.disabled_permissions@))
}

/// Appending to a filtered, mapped prefix.
proof fn lemma_items_step(
    action: PrincipalAction,
    field: PrincipalField,
    s: Seq<Seq<char>>,
    i: int,
    pred: spec_fn(Seq<char>) -> bool,
)
    requires
        0 <= i < s.len(),
    ensures
        as_items(action, field, s.take(i + 1).filter(pred)) == if pred(s[i]) {
            as_items(action, field, s.take(i).filter(pred)).push(
                UpdateView { action, field, value: ValueView::String(s[i]) },
            )
        } else {
            as_items(action, field, s.take(i).filter(pred))
        },
{
    assert(s.take(i + 1) =~= s.take(i).push(s[i]));
    s.take(i).lemma_filter_push(s[i], pred);
    if pred(s[i]) {
        let f = |x: Seq<char>| UpdateView { action, field, value: ValueView::String(x) };
        s.take(i).filter(pred).lemma_push_map_commute(f, s[i]);
    }
}

/// Text of an optional string (empty when absent).
fn unwrap_str(o: Option<String>) -> (s: String)
    ensures
        s@ == opt_str(o),
{
    match o {
        Some(s) => s,
        None => String::new(),
    }
}

/// Whether `v` holds a string equal to `s`.
pub fn vec_contains_str(v: &Vec<String>, s: &String) -> (r: bool)
    ensures
        r == strs(v@).contains(s@),
{
    let mut i: usize = 0;
    while i < v.len()
        invariant
            i <= v@.len(),
            forall|j: int| 0 <= j < i ==> v@[j]@ != s@,
        decreases v.len() - i,
    {
        if str_eq(v[i].as_str(), s.as_str()) {
            assert(strs(v@)[i as int] == s@);
            return true;
        }
        i = i + 1;
    }
    assert(!strs(v@).contains(s@)) by {
        if strs(v@).contains(s@) {
            let k = choose|k: int| 0 <= k < strs(v@).len() && strs(v@)[k] == s@;
            assert(v@[k]@ == s@);
        }
    }
    false
}

/// Pushes `Set field = chg` when the optional texts differ.
fn push_set_if_changed(
    updates: &mut Vec<PrincipalUpdate>,
    field: PrincipalField,
    cur: Option<String>,
    chg: Option<String>,
)
    ensures
        updates_view(final(updates)@) == updates_view(old(updates)@) + set_if_changed(field, cur, chg),
{
    let ghost cur0 = cur;
    let ghost chg0 = chg;
    let current = unwrap_str(cur);
    let change = unwrap_str(chg);
    let ghost before = old(updates)@;
    if !str_eq(current.as_str(), change.as_str()) {
        let u = PrincipalUpdate { action: PrincipalAction::SetValue, field, value: PrincipalValue::String(change) };
        updates.push(u);
        assert(updates_view(updates@) =~= updates_view(before).push(u@));
    } else {
        assert(updates_view(updates@) =~= updates_view(before));
    }
    assert(updates_view(updates@) =~= updates_view(before) + set_if_changed(field, cur0, chg0));
}

/// Whether two quotas are equal.
fn quota_eq(a: &IntOrMany, b: &IntOrMany) -> (r: bool)
    ensures
        r == (a@ == b@),
{
    match a {
        IntOrMany::Int(x) => match b {
            IntOrMany::Int(y) => *x == *y,
            IntOrMany::Many(_) => false,
        },
        IntOrMany::Many(x) => match b {
            IntOrMany::Int(_) => false,
            IntOrMany::Many(y) => {
                let r = u64_slices_eq(x, y);
                proof {
                    if !r {
                        assert(a@ != b@) by {
                            if a@ == b@ {
                                assert(a@ == QuotaView::Many(x@));
                                assert(b@ == QuotaView::Many(y@));
                            }
                        }
                    }
                }
                r
            },
        },
    }
}

/// Whether two integer lists are equal.
fn u64_slices_eq(x: &Vec<u64>, y: &Vec<u64>) -> (r: bool)
    ensures
        r == (x@ == y@),
{
    if x.len() != y.len() {
        return false;
    }
    let mut i: usize = 0;
    while i < x.len()
        invariant
            x@.len() == y@.len(),
            i <= x@.len(),
            forall|j: int| 0 <= j < i ==> x@[j] == y@[j],
        decreases x.len() - i,
    {
        if x[i] != y[i] {
            assert(x@[i as int] != y@[i as int]);
            return false;
        }
        i = i + 1;
    }
    assert(x@ =~= y@);
    true
}

/// Pushes additions of the items of `chg` missing from `cur`, then removals
/// of the items of `cur` missing from `chg`.
fn push_list_updates(updates: &mut Vec<PrincipalUpdate>, field: PrincipalField, cur: &Vec<String>, chg: &Vec<String>)
    ensures
        updates_view(final(updates)@) == updates_view(old(updates)@) + list_updates(field, strs(cur@), strs(chg@)),
{
    let ghost before = updates_view(old(updates)@);
    let ghost c = strs(cur@);
    let ghost n = strs(chg@);
    let mut i: usize = 0;
    while i < chg.len()
        invariant
            c == strs(cur@),
            n == strs(chg@),
            i <= chg@.len(),
            updates_view(updates@) == before + as_items(PrincipalAction::AddItem, field, n.take(i as int).filter(not_in(c))),
        decreases chg.len() - i,
    {
        proof {
            lemma_items_step(PrincipalAction::AddItem, field, n, i as int, not_in(c));
        }
        let ghost prev = updates@;
        if !vec_contains_str(cur, &chg[i]) {
            let u = PrincipalUpdate {
                action: PrincipalAction::AddItem,
                field,
                value: PrincipalValue::String(chg[i].clone()),
            };
            updates.push(u);
            assert(updates_view(updates@) =~= updates_view(prev).push(u@));
        }
        i = i + 1;
    }
    assert(n.take(chg@.len() as int) =~= n);
    let ghost mid = updates_view(updates@);
    let mut k: usize = 0;
    while k < cur.len()
        invariant
            c == strs(cur@),
            n == strs(chg@),
            k <= cur@.len(),
            updates_view(updates@) == mid + as_items(PrincipalAction::RemoveItem, field, c.take(k as int).filter(not_in(n))),
        decreases cur.len() - k,
    {
        proof {
            lemma_items_step(PrincipalAction::RemoveItem, field, c, k as int, not_in(n));
        }
        let ghost prev = updates@;
        if !vec_contains_str(chg, &cur[k]) {
            let u = PrincipalUpdate {
                action: PrincipalAction::RemoveItem,
                field,
                value: PrincipalValue::String(cur[k].clone()),
            };
            updates.push(u);
            assert(updates_view(updates@) =~= updates_view(prev).push(u@));
        }
        k = k + 1;
    }
    assert(c.take(cur@.len() as int) =~= c);
}

/// Pushes the updates of the secrets.
fn push_secret_updates(updates: &mut Vec<PrincipalUpdate>, cur: &Vec<String>, chg: &Vec<String>)
    ensures
        updates_view(final(updates)@) == updates_view(old(updates)@) + secret_updates(strs(cur@), strs(chg@)),
{
    let ghost before = updates_view(old(updates)@);
    let ghost c = strs(cur@);
    let ghost n = strs(chg@);
    let mut changed_password = false;
    let mut i: usize = 0;
    while i < chg.len()
        invariant
            c == strs(cur@),
            n == strs(chg@),
            i <= chg@.len(),
            updates_view(updates@) == before + as_items(
                PrincipalAction::AddItem,
                PrincipalField::Secrets,
                n.take(i as int).filter(secret_is_added(c)),
            ),
            changed_password == exists|j: int| 0 <= j < i && secret_is_added(c)(n[j]) && is_password_spec(n[j]),
        decreases chg.len() - i,
    {
        proof {
            lemma_items_step(PrincipalAction::AddItem, PrincipalField::Secrets, n, i as int, secret_is_added(c));
        }
        let ghost prev = updates@;
        let new_secret = &chg[i];
        if !new_secret.is_app_password() && !vec_contains_str(cur, new_secret) {
            let u = PrincipalUpdate {
                action: PrincipalAction::AddItem,
                field: PrincipalField::Secrets,
                value: PrincipalValue::String(new_secret.clone()),
            };
            updates.push(u);
            assert(updates_view(updates@) =~= updates_view(prev).push(u@));
            if new_secret.is_password() {
                changed_password = true;
            }
        }
        i = i + 1;
    }
    assert(n.take(chg@.len() as int) =~= n);
    assert(changed_password == password_changed(c, n));
    let ghost mid = updates_view(updates@);
    let ghost removed = secret_is_removed(n, changed_password);
    let mut k: usize = 0;
    while k < cur.len()
        invariant
            c == strs(cur@),
            n == strs(chg@),
            removed == secret_is_removed(n, changed_password),
            k <= cur@.len(),
            updates_view(updates@) == mid + as_items(PrincipalAction::RemoveItem, PrincipalField::Secrets, c.take(k as int).filter(removed)),
        decreases cur.len() - k,
    {
        proof {
            lemma_items_step(PrincipalAction::RemoveItem, PrincipalField::Secrets, c, k as int, removed);
        }
        let ghost prev = updates@;
        let prev_secret = &cur[k];
        assert(prev_secret@ == c[k as int]);
        let remove = if !prev_secret.is_password() {
            let mut found = false;
            let mut j: usize = 0;
            while j < chg.len() && !found
                invariant
                    c == strs(cur@),
                    n == strs(chg@),
                    k < cur@.len(),
                    prev_secret@ == c[k as int],
                    j <= chg@.len(),
                    found == exists|m: int| 0 <= m < j && is_prefix(n[m], c[k as int]),
                decreases chg.len() - j,
            {
                assert(n[j as int] == chg@[j as int]@);
                assert(c[k as int] == cur@[k as int]@);
                if starts_with(prev_secret.as_str(), chg[j].as_str()) {
                    found = true;
                }
                j = j + 1;
            }
            !found
        } else {
            changed_password
        };
        assert(remove == removed(c[k as int]));
        if remove {
            let u = PrincipalUpdate {
                action: PrincipalAction::RemoveItem,
                field: PrincipalField::Secrets,
                value: PrincipalValue::String(prev_secret.clone()),
            };
            updates.push(u);
            assert(updates_view(updates@) =~= updates_view(prev).push(u@));
        }
        k = k + 1;
    }
    assert(c.take(cur@.len() as int) =~= c);
}

impl Principal {
    /// A principal with no identity, type, name, secrets, addresses, members or description.
    pub open spec fn spec_is_blank(&self) -> bool {
        &&& self.id is None
        &&& self.typ is None
        &&& self.name is None
        &&& self.secrets@.len() == 0
        &&& self.emails@.len() == 0
        &&& self.member_of@.len() == 0
        &&& self.members@.len() == 0
        &&& self.description is None
    }

    pub fn is_blank(&self) -> (r: bool)
        ensures
            r == self.spec_is_blank(),
    {
        self.id.is_none() && self.typ.is_none() && self.name.is_none() && self.secrets.len() == 0
            && self.emails.len() == 0 && self.member_of.len() == 0 && self.members.len() == 0
            && self.description.is_none()
    }

    /// The updates that turn `self` into `changes`: `Set` of the changed scalar
    /// fields, the added and removed secrets, and per list field the added then
    /// the removed items.
    pub fn into_updates(self, changes: Principal) -> (updates: Vec<PrincipalUpdate>)
        ensures
            updates_view(updates@) == spec_updates(self, changes),
    {
        let ghost cur = self;
        let ghost chg = changes;
        let mut updates: Vec<PrincipalUpdate> = Vec::new();
        assert(updates_view(updates@) =~= Seq::empty());
        push_set_if_changed(&mut updates, PrincipalField::Name, self.name, changes.name);
        push_set_if_changed(&mut updates, PrincipalField::Description, self.description, changes.description);
        push_set_if_changed(&mut updates, PrincipalField::Tenant, self.tenant, changes.tenant);
        push_set_if_changed(&mut updates, PrincipalField::Picture, self.picture, changes.picture);

        let current_quota = match self.quota {
            Some(q) => q,
            None => IntOrMany::Int(0),
        };
        let changes_quota = match changes.quota {
            Some(q) => q,
            None => IntOrMany::Int(0),
        };
        let ghost before_quota = updates@;
        if !quota_eq(&current_quota, &changes_quota) {
            let u = PrincipalUpdate {
                action: PrincipalAction::SetValue,
                field: PrincipalField::Quota,
                value: match changes_quota {
                    IntOrMany::Int(v) => PrincipalValue::Integer(v),
                    IntOrMany::Many(v) => PrincipalValue::IntegerList(v),
                },
            };
            updates.push(u);
            assert(updates_view(updates@) =~= updates_view(before_quota).push(u@));
        } else {
            assert(updates_view(updates@) =~= updates_view(before_quota));
        }

        push_secret_updates(&mut updates, &self.secrets, &changes.secrets);
        push_list_updates(&mut updates, PrincipalField::Emails, &self.emails, &changes.emails);
        push_list_updates(&mut updates, PrincipalField::MemberOf, &self.member_of, &changes.member_of);
        push_list_updates(&mut updates, PrincipalField::Members, &self.members, &changes.members);
        push_list_updates(&mut updates, PrincipalField::Roles, &self.roles, &changes.roles);
        push_list_updates(&mut updates, PrincipalField::Lists, &self.lists, &changes.lists);
        push_list_updates(
            &mut updates,
            PrincipalField::EnabledPermissions,
            &self.enabled_permissions,
            &changes.enabled_permissions,
        );
        push_list_updates(
            &mut updates,
            PrincipalField::DisabledPermissions,
            &self.disabled_permissions,
            &changes.disabled_permissions,
        );
        assert(updates_view(updates@) =~= spec_updates(cur, chg));
        updates
    }
}


/// Comparing a principal with itself yields no update.
pub proof fn lemma_no_change_no_updates(p: Principal)
    ensures
        spec_updates(p, p) == Seq::<UpdateView>::empty(),
{
    lemma_same_list_no_updates(PrincipalField::Emails, strs(p.emails@));
    lemma_same_list_no_updates(PrincipalField::MemberOf, strs(p.member_of@));
    lemma_same_list_no_updates(PrincipalField::Members, strs(p.members@));
    lemma_same_list_no_updates(PrincipalField::Roles, strs(p.roles@));
    lemma_same_list_no_updates(PrincipalField::Lists, strs(p.lists@));
    lemma_same_list_no_updates(PrincipalField::EnabledPermissions, strs(p.enabled_permissions@));
    lemma_same_list_no_updates(PrincipalField::DisabledPermissions, strs(p.disabled_permissions@));
    let s = strs(p.secrets@);
    assert(s.all(|x: Seq<char>| !secret_is_added(s)(x))) by {
        assert forall|i: int| 0 <= i < s.len() implies !secret_is_added(s)(#[trigger] s[i]) by {
            assert(s.contains(s[i]));
        }
    }
    s.lemma_all_neg_filter_empty(secret_is_added(s));
    assert(!password_changed(s, s)) by {
        if password_changed(s, s) {
            let i = choose|i: int| 0 <= i < s.len() && secret_is_added(s)(s[i]) && is_password_spec(s[i]);
            assert(s.contains(s[i]));
        }
    }
    let removed = secret_is_removed(s, false);
    assert(s.all(|x: Seq<char>| !removed(x))) by {
        assert forall|i: int| 0 <= i < s.len() implies !removed(#[trigger] s[i]) by {
            assert(s[i].subrange(0, s[i].len() as int) =~= s[i]);
            assert(is_prefix(s[i], s[i]));
        }
    }
    s.lemma_all_neg_filter_empty(removed);
    assert(secret_updates(s, s) =~= Seq::empty());
    assert(spec_updates(p, p) =~= Seq::empty());
}

/// The list-valued fields of a principal.
pub open spec fn is_list_field(f: PrincipalField) -> bool {
    f is Emails || f is MemberOf || f is Members || f is Roles || f is Lists || f is EnabledPermissions
        || f is DisabledPermissions
}

/// The items a principal holds in the list field `f`.
pub open spec fn list_of(p: Principal, f: PrincipalField) -> Seq<Seq<char>> {
    match f {
        PrincipalField::Emails => strs(p.emails@),
        PrincipalField::MemberOf => strs(p.member_of@),
        PrincipalField::Members => strs(p.members@),
        PrincipalField::Roles => strs(p.roles@),
        PrincipalField::Lists => strs(p.lists@),
        PrincipalField::EnabledPermissions => strs(p.enabled_permissions@),
        PrincipalField::DisabledPermissions => strs(p.disabled_permissions@),
        _ => Seq::empty(),
    }
}

/// The update addresses field `f` with action `a`.
pub open spec fn addresses(a: PrincipalAction, f: PrincipalField) -> spec_fn(UpdateView) -> bool {
    |u: UpdateView| u.action == a && u.field == f
}

/// The text an update carries (empty for numbers and lists).
pub open spec fn carried_text(u: UpdateView) -> Seq<char> {
    match u.value {
        ValueView::String(s) => s,
        _ => Seq::empty(),
    }
}

/// The texts of the updates of `us` that address field `f` with action `a`, in order.
pub open spec fn items_of(us: Seq<UpdateView>, a: PrincipalAction, f: PrincipalField) -> Seq<Seq<char>> {
    us.filter(addresses(a, f)).map_values(|u: UpdateView| carried_text(u))
}

proof fn lemma_items_of_add(x: Seq<UpdateView>, y: Seq<UpdateView>, a: PrincipalAction, f: PrincipalField)
    ensures
        items_of(x + y, a, f) == items_of(x, a, f) + items_of(y, a, f),
{
    Seq::filter_distributes_over_add(x, y, addresses(a, f));
    assert(items_of(x + y, a, f) =~= items_of(x, a, f) + items_of(y, a, f));
}

/// A sequence none of whose updates addresses `f` with `a` carries no item for them.
proof fn lemma_items_of_none(us: Seq<UpdateView>, a: PrincipalAction, f: PrincipalField)
    requires
        forall|i: int| 0 <= i < us.len() ==> !addresses(a, f)(#[trigger] us[i]),
    ensures
        items_of(us, a, f) == Seq::<Seq<char>>::empty(),
{
    us.lemma_all_neg_filter_empty(addresses(a, f));
    assert(us.filter(addresses(a, f)) =~= Seq::<UpdateView>::empty());
    assert(items_of(us, a, f) =~= Seq::<Seq<char>>::empty());
}

/// The updates of one action and field carry back their items.
proof fn lemma_items_of_as_items(xs: Seq<Seq<char>>, a: PrincipalAction, f: PrincipalField)
    ensures
        items_of(as_items(a, f, xs), a, f) == xs,
    decreases xs.len(),
{
    if xs.len() > 0 {
        let rest = xs.drop_last();
        lemma_items_of_as_items(rest, a, f);
        let u = UpdateView { action: a, field: f, value: ValueView::String(xs.last()) };
        assert(as_items(a, f, xs) =~= as_items(a, f, rest).push(u));
        as_items(a, f, rest).lemma_filter_push(u, addresses(a, f));
        assert(items_of(as_items(a, f, xs), a, f) =~= items_of(as_items(a, f, rest), a, f).push(xs.last()));
        assert(rest.push(xs.last()) =~= xs);
    } else {
        assert(as_items(a, f, xs) =~= Seq::<UpdateView>::empty());
        lemma_items_of_none(as_items(a, f, xs), a, f);
    }
}

/// The items `list_updates(g, ..)` carries for `a` on `f`.
proof fn lemma_items_of_list(
    g: PrincipalField,
    cur: Seq<Seq<char>>,
    chg: Seq<Seq<char>>,
    a: PrincipalAction,
    f: PrincipalField,
)
    requires
        a is AddItem || a is RemoveItem,
    ensures
        items_of(list_updates(g, cur, chg), a, f) == if g != f {
            Seq::<Seq<char>>::empty()
        } else if a is AddItem {
            chg.filter(not_in(cur))
        } else {
            cur.filter(not_in(chg))
        },
{
    let adds = as_items(PrincipalAction::AddItem, g, chg.filter(not_in(cur)));
    let rems = as_items(PrincipalAction::RemoveItem, g, cur.filter(not_in(chg)));
    lemma_items_of_add(adds, rems, a, f);
    if g != f || !(a is AddItem) {
        lemma_items_of_none(adds, a, f);
    } else {
        lemma_items_of_as_items(chg.filter(not_in(cur)), a, f);
    }
    if g != f || !(a is RemoveItem) {
        lemma_items_of_none(rems, a, f);
    } else {
        lemma_items_of_as_items(cur.filter(not_in(chg)), a, f);
    }
    assert(items_of(adds, a, f) + items_of(rems, a, f) =~= if g != f {
        Seq::<Seq<char>>::empty()
    } else if a is AddItem {
        chg.filter(not_in(cur))
    } else {
        cur.filter(not_in(chg))
    });
}

/// List-field law: for every list field (addresses, groups, members, roles,
/// lists, enabled and disabled permissions) the updates that turn `cur`
/// into `chg` add exactly the items of `chg` missing from `cur` and remove
/// exactly the items of `cur` missing from `chg`, each in list order.
pub proof fn lemma_list_field_updates(cur: Principal, chg: Principal, f: PrincipalField)
    requires
        is_list_field(f),
    ensures
        items_of(spec_updates(cur, chg), PrincipalAction::AddItem, f) == list_of(chg, f).filter(
            |x: Seq<char>| !list_of(cur, f).contains(x),
        ),
        items_of(spec_updates(cur, chg), PrincipalAction::RemoveItem, f) == list_of(cur, f).filter(
            |x: Seq<char>| !list_of(chg, f).contains(x),
        ),
{
    lemma_list_field_items(cur, chg, f, PrincipalAction::AddItem);
    lemma_list_field_items(cur, chg, f, PrincipalAction::RemoveItem);
    assert(not_in(list_of(cur, f)) =~= |x: Seq<char>| !list_of(cur, f).contains(x));
    assert(not_in(list_of(chg, f)) =~= |x: Seq<char>| !list_of(chg, f).contains(x));
}

#[verifier::rlimit(40)]
proof fn lemma_list_field_items(cur: Principal, chg: Principal, f: PrincipalField, a: PrincipalAction)
    requires
        is_list_field(f),
        a is AddItem || a is RemoveItem,
    ensures
        items_of(spec_updates(cur, chg), a, f) == if a is AddItem {
            list_of(chg, f).filter(not_in(list_of(cur, f)))
        } else {
            list_of(cur, f).filter(not_in(list_of(chg, f)))
        },
{
    let s0 = set_if_changed(PrincipalField::Name, cur.name, chg.name);
    let s1 = set_if_changed(PrincipalField::Description, cur.description, chg.description);
    let s2 = set_if_changed(PrincipalField::Tenant, cur.tenant, chg.tenant);
    let s3 = set_if_changed(PrincipalField::Picture, cur.picture, chg.picture);
    let s4 = quota_update(cur.quota, chg.quota);
    let sc = strs(cur.secrets@);
    let sn = strs(chg.secrets@);
    let s5 = secret_updates(sc, sn);
    let l0 = list_updates(PrincipalField::Emails, strs(cur.emails@), strs(chg.emails@));
    let l1 = list_updates(PrincipalField::MemberOf, strs(cur.member_of@), strs(chg.member_of@));
    let l2 = list_updates(PrincipalField::Members, strs(cur.members@), strs(chg.members@));
    let l3 = list_updates(PrincipalField::Roles, strs(cur.roles@), strs(chg.roles@));
    let l4 = list_updates(PrincipalField::Lists, strs(cur.lists@), strs(chg.lists@));
    let l5 = list_updates(PrincipalField::EnabledPermissions, strs(cur.enabled_permissions@), strs(chg.enabled_permissions@));
    let l6 = list_updates(PrincipalField::DisabledPermissions, strs(cur.disabled_permissions@), strs(chg.disabled_permissions@));
    // scalar fields, the quota and the secrets carry nothing for a list field
    lemma_items_of_none(s0, a, f);
    lemma_items_of_none(s1, a, f);
    lemma_items_of_none(s2, a, f);
    lemma_items_of_none(s3, a, f);
    lemma_items_of_none(s4, a, f);
    let sa = as_items(PrincipalAction::AddItem, PrincipalField::Secrets, sn.filter(secret_is_added(sc)));
    let sr = as_items(
        PrincipalAction::RemoveItem,
        PrincipalField::Secrets,
        sc.filter(secret_is_removed(sn, password_changed(sc, sn))),
    );
    lemma_items_of_none(sa, a, f);
    lemma_items_of_none(sr, a, f);
    lemma_items_of_add(sa, sr, a, f);
    lemma_items_of_list(PrincipalField::Emails, strs(cur.emails@), strs(chg.emails@), a, f);
    lemma_items_of_list(PrincipalField::MemberOf, strs(cur.member_of@), strs(chg.member_of@), a, f);
    lemma_items_of_list(PrincipalField::Members, strs(cur.members@), strs(chg.members@), a, f);
    lemma_items_of_list(PrincipalField::Roles, strs(cur.roles@), strs(chg.roles@), a, f);
    lemma_items_of_list(PrincipalField::Lists, strs(cur.lists@), strs(chg.lists@), a, f);
    lemma_items_of_list(PrincipalField::EnabledPermissions, strs(cur.enabled_permissions@), strs(chg.enabled_permissions@), a, f);
    lemma_items_of_list(PrincipalField::DisabledPermissions, strs(cur.disabled_permissions@), strs(chg.disabled_permissions@), a, f);
    let t0 = s0 + s1;
    let t1 = t0 + s2;
    let t2 = t1 + s3;
    let t3 = t2 + s4;
    let t4 = t3 + s5;
    let t5 = t4 + l0;
    let t6 = t5 + l1;
    let t7 = t6 + l2;
    let t8 = t7 + l3;
    let t9 = t8 + l4;
    let t10 = t9 + l5;
    let t11 = t10 + l6;
    assert(spec_updates(cur, chg) == t11);
    lemma_items_of_add(s0, s1, a, f);
    lemma_items_of_add(t0, s2, a, f);
    lemma_items_of_add(t1, s3, a, f);
    lemma_items_of_add(t2, s4, a, f);
    lemma_items_of_add(t3, s5, a, f);
    lemma_items_of_add(t4, l0, a, f);
    lemma_items_of_add(t5, l1, a, f);
    lemma_items_of_add(t6, l2, a, f);
    lemma_items_of_add(t7, l3, a, f);
    lemma_items_of_add(t8, l4, a, f);
    lemma_items_of_add(t9, l5, a, f);
    lemma_items_of_add(t10, l6, a, f);
    let e = Seq::<Seq<char>>::empty();
    assert(items_of(t4, a, f) =~= e);
    let want = if a is AddItem {
        list_of(chg, f).filter(not_in(list_of(cur, f)))
    } else {
        list_of(cur, f).filter(not_in(list_of(chg, f)))
    };
    assert(items_of(t11, a, f) =~= want);
}

/// A list compared with itself yields no update.
proof fn lemma_same_list_no_updates(field: PrincipalField, l: Seq<Seq<char>>)
    ensures
        list_updates(field, l, l) == Seq::<UpdateView>::empty(),
{
    assert(l.all(|x: Seq<char>| !not_in(l)(x))) by {
        assert forall|i: int| 0 <= i < l.len() implies !not_in(l)(#[trigger] l[i]) by {
            assert(l.contains(l[i]));
        }
    }
    l.lemma_all_neg_filter_empty(not_in(l));
    assert(list_updates(field, l, l) =~= Seq::empty());
}

// ----- principal types -----------------------------------------------------

impl PrincipalType {
    /// Identifier used in requests and settings.
    pub open spec fn spec_id(self) -> Seq<char> {
        match self {
            PrincipalType::Individual => "individual"@,
            PrincipalType::Group => "group"@,
            PrincipalType::Resource => "resource"@,
            PrincipalType::Location => "location"@,
            PrincipalType::List => "list"@,
            PrincipalType::Other => "other"@,
            PrincipalType::Domain => "domain"@,
            PrincipalType::Tenant => "tenant"@,
            PrincipalType::Role => "role"@,
        }
    }

    pub fn id(&self) -> (r: &'static str)
        ensures
            r@ == self.spec_id(),
    {
        match self {
            PrincipalType::Individual => "individual",
            PrincipalType::Group => "group",
            PrincipalType::Resource => "resource",
            PrincipalType::Location => "location",
            PrincipalType::List => "list",
            PrincipalType::Other => "other",
            PrincipalType::Domain => "domain",
            PrincipalType::Tenant => "tenant",
            PrincipalType::Role => "role",
        }
    }

    /// Human readable name.
    pub open spec fn spec_name(self) -> Seq<char> {
        match self {
            PrincipalType::Individual => "Individual"@,
            PrincipalType::Group => "Group"@,
            PrincipalType::Resource => "Resource"@,
            PrincipalType::Location => "Location"@,
            PrincipalType::List => "Mailing List"@,
            PrincipalType::Other => "Other"@,
            PrincipalType::Domain => "Domain"@,
            PrincipalType::Tenant => "Tenant"@,
            PrincipalType::Role => "Role"@,
        }
    }

    pub fn name(&self) -> (r: &'static str)
        ensures
            r@ == self.spec_name(),
    {
        match self {
            PrincipalType::Individual => "Individual",
            PrincipalType::Group => "Group",
            PrincipalType::Resource => "Resource",
            PrincipalType::Location => "Location",
            PrincipalType::List => "Mailing List",
            PrincipalType::Other => "Other",
            PrincipalType::Domain => "Domain",
            PrincipalType::Tenant => "Tenant",
            PrincipalType::Role => "Role",
        }
    }

    /// Name of one item (or of several, when `plural`) of this type.
    pub open spec fn spec_item_name(self, plural: bool) -> Seq<char> {
        match self {
            PrincipalType::Individual => if plural { "accounts"@ } else { "account"@ },
            PrincipalType::Group => if plural { "groups"@ } else { "group"@ },
            PrincipalType::Resource => if plural { "resources"@ } else { "resource"@ },
            PrincipalType::Location => if plural { "locations"@ } else { "location"@ },
            PrincipalType::List => if plural { "mailing lists"@ } else { "mailing list"@ },
            PrincipalType::Other => "other"@,
            PrincipalType::Domain => if plural { "domains"@ } else { "domain"@ },
            PrincipalType::Tenant => if plural { "tenants"@ } else { "tenant"@ },
            PrincipalType::Role => if plural { "roles"@ } else { "role"@ },
        }
    }

    pub fn item_name(&self, plural: bool) -> (r: &'static str)
        ensures
            r@ == self.spec_item_name(plural),
    {
        match (self, plural) {
            (PrincipalType::Individual, false) => "account",
            (PrincipalType::Individual, true) => "accounts",
            (PrincipalType::Group, false) => "group",
            (PrincipalType::Group, true) => "groups",
            (PrincipalType::Resource, false) => "resource",
            (PrincipalType::Resource, true) => "resources",
            (PrincipalType::Location, false) => "location",
            (PrincipalType::Location, true) => "locations",
            (PrincipalType::List, false) => "mailing list",
            (PrincipalType::List, true) => "mailing lists",
            (PrincipalType::Other, false) => "other",
            (PrincipalType::Other, true) => "other",
            (PrincipalType::Domain, false) => "domain",
            (PrincipalType::Domain, true) => "domains",
            (PrincipalType::Tenant, false) => "tenant",
            (PrincipalType::Tenant, true) => "tenants",
            (PrincipalType::Role, false) => "role",
            (PrincipalType::Role, true) => "roles",
        }
    }

    /// The types that have a REST resource of their own.
    pub open spec fn has_resource(self) -> bool {
        !(self is Resource || self is Location || self is Other)
    }

    /// Name of the REST resource that lists principals of this type.
    pub open spec fn spec_resource_name(self) -> Seq<char> {
        match self {
            PrincipalType::Individual => "accounts"@,
            PrincipalType::Group => "groups"@,
            PrincipalType::List => "lists"@,
            PrincipalType::Role => "roles"@,
            PrincipalType::Tenant => "tenants"@,
            _ => "domains"@,
        }
    }

    pub fn resource_name(&self) -> (r: &'static str)
        requires
            self.has_resource(),
        ensures
            r@ == self.spec_resource_name(),
    {
        match self {
            PrincipalType::Individual => "accounts",
            PrincipalType::Group => "groups",
            PrincipalType::List => "lists",
            PrincipalType::Role => "roles",
            PrincipalType::Tenant => "tenants",
            _ => "domains",
        }
    }
}

/// The type whose identifier is `s`, if any.
pub open spec fn spec_parse_type(s: Seq<char>) -> Option<PrincipalType> {
    if s == "individual"@ {
        Some(PrincipalType::Individual)
    } else if s == "group"@ {
        Some(PrincipalType::Group)
    } else if s == "resource"@ {
        Some(PrincipalType::Resource)
    } else if s == "location"@ {
        Some(PrincipalType::Location)
    } else if s == "list"@ {
        Some(PrincipalType::List)
    } else if s == "other"@ {
        Some(PrincipalType::Other)
    } else if s == "domain"@ {
        Some(PrincipalType::Domain)
    } else if s == "tenant"@ {
        Some(PrincipalType::Tenant)
    } else if s == "role"@ {
        Some(PrincipalType::Role)
    } else {
        None
    }
}

/// Parses a type identifier; an unknown one gives `Invalid PrincipalType: <s>`.
pub fn parse_principal_type(s: &str) -> (r: Result<PrincipalType, String>)
    ensures
        match r {
            Ok(t) => spec_parse_type(s@) == Some(t),
            Err(e) => spec_parse_type(s@) is None && e@ == "Invalid PrincipalType: "@ + s@,
        },
{
    if str_eq(s, "individual") {
        Ok(PrincipalType::Individual)
    } else if str_eq(s, "group") {
        Ok(PrincipalType::Group)
    } else if str_eq(s, "resource") {
        Ok(PrincipalType::Resource)
    } else if str_eq(s, "location") {
        Ok(PrincipalType::Location)
    } else if str_eq(s, "list") {
        Ok(PrincipalType::List)
    } else if str_eq(s, "other") {
        Ok(PrincipalType::Other)
    } else if str_eq(s, "domain") {
        Ok(PrincipalType::Domain)
    } else if str_eq(s, "tenant") {
        Ok(PrincipalType::Tenant)
    } else if str_eq(s, "role") {
        Ok(PrincipalType::Role)
    } else {
        Err(crate::text::concat("Invalid PrincipalType: ", s))
    }
}

impl std::str::FromStr for PrincipalType {
    type Err = String;

    fn from_str(s: &str) -> (r: Result<Self, Self::Err>)
        ensures
            match r {
                Ok(t) => spec_parse_type(s@) == Some(t),
                Err(e) => spec_parse_type(s@) is None && e@ == "Invalid PrincipalType: "@ + s@,
            },
    {
        parse_principal_type(s)
    }
}

/// Every type is parsed back from its identifier.
pub proof fn lemma_type_id_roundtrip(t: PrincipalType)
    ensures
        spec_parse_type(t.spec_id()) == Some(t),
{
    reveal_strlit("individual");
    reveal_strlit("group");
    reveal_strlit("resource");
    reveal_strlit("location");
    reveal_strlit("list");
    reveal_strlit("other");
    reveal_strlit("domain");
    reveal_strlit("tenant");
    reveal_strlit("role");
    let ids = seq![
        "individual"@, "group"@, "resource"@, "location"@, "list"@, "other"@, "domain"@, "tenant"@,
        "role"@,
    ];
    assert(ids[0].len() == 10 && ids[1].len() == 5 && ids[2].len() == 8 && ids[3].len() == 8);
    assert(ids[4].len() == 4 && ids[5].len() == 5 && ids[6].len() == 6 && ids[7].len() == 6);
    assert(ids[8].len() == 4);
    assert(ids[2][0] != ids[3][0]);
    assert(ids[1][0] != ids[5][0]);
    assert(ids[4][0] != ids[8][0]);
    assert(ids[6][0] != ids[7][0]);
}

impl IntOrMany {
    /// The single limit, or the first of several (0 when there is none).
    pub fn first(&self) -> (r: u64)
        ensures
            r == match self {
                IntOrMany::Int(i) => *i,
                IntOrMany::Many(v) => if v@.len() > 0 { v@[0] } else { 0 },
            },
    {
        match self {
            IntOrMany::Int(i) => *i,
            IntOrMany::Many(v) => if v.len() > 0 { v[0] } else { 0 },
        }
    }
}


// ----- application passwords -----------------------------------------------

/// Padded standard base64 (RFC 4648) text of some bytes.
pub uninterp spec fn spec_base64_encode(bytes: Seq<u8>) -> Seq<char>;

/// The bytes that padded standard base64 text decodes to, if it is valid.
pub uninterp spec fn spec_base64_decode(text: Seq<u8>) -> Option<Seq<u8>>;

/// A character of the standard base64 alphabet or the padding `=`.
pub open spec fn is_base64_char(c: char) -> bool {
    ('A' <= c <= 'Z') || ('a' <= c <= 'z') || ('0' <= c <= '9') || c == '+' || c == '/' || c == '='
}

/// `base64::engine::general_purpose::STANDARD.encode`: the padded standard
/// base64 text of the bytes. Its characters are of the standard alphabet
/// (`A-Z a-z 0-9 + /`) or the padding `=`, and decoding that text with the
/// same engine gives the bytes back.
#[verifier::external_body]
fn base64_encode(bytes: &[u8]) -> (s: String)
    requires
        bytes@.len() <= usize::MAX / 2,
    ensures
        s@ == spec_base64_encode(bytes@),
        forall|i: int| 0 <= i < s@.len() ==> is_base64_char(#[trigger] s@[i]),
        spec_base64_decode(encode_utf8(s@)) == Some(bytes@),
{
    STANDARD.encode(bytes)
}

/// `base64::engine::general_purpose::STANDARD.decode`: the decoded bytes, or
/// `None` where the crate reports a `DecodeError`.
#[verifier::external_body]
fn base64_decode(text: &[u8]) -> (r: Option<Vec<u8>>)
    ensures
        match r {
            Some(v) => spec_base64_decode(text@) == Some(v@),
            None => spec_base64_decode(text@) is None,
        },
{
    STANDARD.decode(text).ok()
}

/// `String::from_utf8`: the text of the bytes when they are valid UTF-8.
#[verifier::external_body]
fn utf8_string(bytes: Vec<u8>) -> (r: Option<String>)
    ensures
        r is Some <==> valid_utf8(bytes@),
        r matches Some(s) ==> s@ == decode_utf8(bytes@),
{
    String::from_utf8(bytes).ok()
}

/// `c` first occurs in `s` at `i`.
pub open spec fn is_first_index(s: Seq<char>, c: char, i: int) -> bool {
    0 <= i < s.len() && s[i] == c && forall|j: int| 0 <= j < i ==> s[j] != c
}

/// The application name and the password of `$app$<base64 name>$<password>`.
pub open spec fn spec_parse_app_password(secret: Seq<char>) -> Option<(Seq<char>, Seq<char>)> {
    let rest = secret.skip("$app$"@.len() as int);
    if is_prefix("$app$"@, secret) && rest.contains('$') {
        let i = choose|i: int| is_first_index(rest, '$', i);
        match spec_base64_decode(encode_utf8(rest.take(i))) {
            Some(bytes) => if valid_utf8(bytes) {
                Some((decode_utf8(bytes), rest.skip(i + 1)))
            } else {
                None
            },
            None => None,
        }
    } else {
        None
    }
}

/// `$app$<base64 of app>$<password>`.
pub open spec fn spec_build_app_password(app: Seq<char>, password: Seq<char>) -> Seq<char> {
    "$app$"@ + spec_base64_encode(encode_utf8(app)) + "$"@ + password
}

/// Splits an application password into its application name and password.
pub fn parse_app_password<'a>(secret: &'a str) -> (r: Option<(String, &'a str)>)
    ensures
        match r {
            Some((app, password)) => spec_parse_app_password(secret@) == Some((app@, password@)),
            None => spec_parse_app_password(secret@) is None,
        },
{
    proof {
        reveal_strlit("$app$");
    }
    let sv = chars_of(secret);
    let ghost rest = secret@.skip(5);
    if !starts_with(secret, "$app$") {
        return None;
    }
    let mut i: usize = 5;
    while i < sv.len() && sv[i] != '$'
        invariant
            sv@ == secret@,
            5 <= i <= sv@.len(),
            rest == secret@.skip(5),
            forall|j: int| 5 <= j < i ==> sv@[j] != '$',
        decreases sv.len() - i,
    {
        i = i + 1;
    }
    if i == sv.len() {
        assert(!rest.contains('$')) by {
            if rest.contains('$') {
                let k = choose|k: int| 0 <= k < rest.len() && rest[k] == '$';
                assert(sv@[k + 5] == '$');
            }
        }
        return None;
    }
    let ghost k = i - 5;
    assert(is_first_index(rest, '$', k));
    assert(rest.contains('$')) by {
        assert(rest[k] == '$');
    }
    assert forall|j: int| is_first_index(rest, '$', j) implies j == k by {
        if j < k {
            assert(rest[j] != '$');
        } else if j > k {
            assert(rest[k] != '$');
        }
    }
    let app_text = secret.substring_char(5, i);
    let password = secret.substring_char(i + 1, sv.len());
    assert(app_text@ =~= rest.take(k));
    assert(password@ =~= rest.skip(k + 1));
    match base64_decode(app_text.as_bytes()) {
        Some(bytes) => match utf8_string(bytes) {
            Some(app) => Some((app, password)),
            None => None,
        },
        None => None,
    }
}

/// Builds the secret of an application password.
pub fn build_app_password(app: &str, password: &str) -> (r: String)
    requires
        app@.len() <= usize::MAX / 8,
    ensures
        r@ == spec_build_app_password(app@, password@),
        spec_parse_app_password(r@) == Some((app@, password@)),
{
    proof {
        reveal_strlit("$app$");
        reveal_strlit("$");
        vstd::utf8::encode_utf8_valid_utf8(app@);
        vstd::utf8::encode_utf8_decode_utf8(app@);
        lemma_encode_utf8_len(app@);
    }
    let encoded = base64_encode(app.as_bytes());
    let mut r = String::from_str("$app$");
    r.append(encoded.as_str());
    r.append("$");
    r.append(password);
    proof {
        let rest = r@.skip(5);
        let e = encoded@;
        assert(rest =~= e + "$"@ + password@);
        let k = e.len() as int;
        assert(rest[k] == '$');
        assert forall|j: int| 0 <= j < k implies rest[j] != '$' by {
            assert(rest[j] == e[j]);
            assert(is_base64_char(e[j]));
        }
        assert(is_first_index(rest, '$', k));
        assert forall|j: int| is_first_index(rest, '$', j) implies j == k by {
            if j > k {
                assert(rest[k] != '$');
            }
        }
        assert(rest.take(k) =~= e);
        assert(rest.skip(k + 1) =~= password@);
        assert(r@.subrange(0, 5) =~= "$app$"@);
    }
    r
}

/// The UTF-8 encoding of a text is at most four bytes per character.
proof fn lemma_encode_utf8_len(s: Seq<char>)
    ensures
        encode_utf8(s).len() <= 4 * s.len(),
    decreases s.len(),
{
    if s.len() > 0 {
        lemma_encode_utf8_len(s.drop_first());
        vstd::utf8::encode_utf8_first_scalar(s);
        assert(encode_utf8(s) == vstd::utf8::encode_scalar(s[0] as u32) + encode_utf8(s.drop_first()));
    }
}

} // verus!
