//! Tracing events of the server: their typed key/value data, lookups into
//! it, and how each datum is described and rendered.
use vstd::prelude::*;

use humansize::{format_size, DECIMAL};

use crate::directory::strs;
use crate::text::{
    concat, contains, dec, ends_with, is_prefix, starts_with, spec_split_once, spec_trim, split_chars, split_on, split_once, str_eq, trim,
    u64_to_string,
};
use crate::time::{
    humanize_span, is_representable, parse_rfc3339, spec_chrono_valid, spec_humanize_span, spec_parse_rfc3339, FormatDateTime, UtcDateTime,
};

verus! {

/// Key of a datum attached to an event.
#[derive(Debug, Clone, Copy, PartialEq, Eq, Hash, Structural)]
pub enum Key {
    AccountName,
    AccountId,
    BlobId,
    CausedBy,
    ChangeId,
    Code,
    Collection,
    Contents,
    Details,
    DkimFail,
    DkimNone,
    DkimPass,
    DmarcNone,
    DmarcPass,
    DmarcQuarantine,
    DmarcReject,
    DocumentId,
    Domain,
    Due,
    Elapsed,
    Expires,
    From,
    Hostname,
    Id,
    Key,
    Limit,
    ListenerId,
    LocalIp,
    LocalPort,
    MailboxName,
    MailboxId,
    MessageId,
    NextDsn,
    NextRetry,
    Path,
    Policy,
    QueueId,
    RangeFrom,
    RangeTo,
    Reason,
    RemoteIp,
    RemotePort,
    ReportId,
    Result,
    Size,
    Source,
    SpanId,
    SpfFail,
    SpfNone,
    SpfPass,
    Strict,
    Tls,
    To,
    Total,
    TotalFailures,
    TotalSuccesses,
    Type,
    Uid,
    UidNext,
    UidValidity,
    Url,
    ValidFrom,
    ValidTo,
    Value,
    Version,
}

/// A datum attached to an event. Floating point numbers are carried as their
/// IEEE 754 bit pattern (`f64::to_bits`).
#[derive(Debug, PartialEq, Eq)]
pub enum Value {
    String(String),
    Int(u64),
    Float(u64),
    Bool(bool),
    Event(SubEvent),
    Array(Vec<Value>),
}

/// An event nested in another event's data.
#[derive(Debug, PartialEq, Eq)]
pub struct SubEvent {
    pub typ: String,
    pub text: Option<String>,
    pub details: Option<String>,
    pub data: Vec<(Key, Value)>,
}

/// A tracing event.
#[derive(Debug, PartialEq, Eq)]
pub struct Event {
    pub typ: String,
    pub text: Option<String>,
    pub details: Option<String>,
    pub created_at: UtcDateTime,
    pub data: Vec<(Key, Value)>,
}

/// `key` first occurs in `data` at index `i`.
pub open spec fn first_key_at(data: Seq<(Key, Value)>, key: Key, i: int) -> bool {
    0 <= i < data.len() && data[i].0 == key && forall|j: int| 0 <= j < i ==> data[j].0 != key
}

/// The value of the first entry of `data` with key `key`.
pub open spec fn spec_get(data: Seq<(Key, Value)>, key: Key) -> Option<Value> {
    if exists|i: int| first_key_at(data, key, i) {
        Some(data[choose|i: int| first_key_at(data, key, i)].1)
    } else {
        None
    }
}

/// The text of a string value.
pub open spec fn spec_as_str(v: Value) -> Option<Seq<char>> {
    match v {
        Value::String(s) => Some(s@),
        _ => None,
    }
}

/// The number of an integer value.
pub open spec fn spec_as_int(v: Value) -> Option<u64> {
    match v {
        Value::Int(i) => Some(i),
        _ => None,
    }
}

/// The texts of the string items of a list of values.
pub open spec fn strings_of(items: Seq<Value>) -> Seq<Seq<char>>
    decreases items.len(),
{
    if items.len() == 0 {
        Seq::empty()
    } else {
        let rest = strings_of(items.drop_last());
        match items.last() {
            Value::String(s) => rest.push(s@),
            _ => rest,
        }
    }
}

/// The texts a value holds: its string items, itself when it is a string, or none.
pub open spec fn spec_as_str_list(v: Value) -> Seq<Seq<char>> {
    match v {
        Value::Array(arr) => strings_of(arr@),
        Value::String(s) => seq![s@],
        _ => Seq::empty(),
    }
}

/// Looks up the first entry with key `key`.
fn get_in(data: &Vec<(Key, Value)>, key: Key) -> (r: Option<&Value>)
    ensures
        match r {
            Some(v) => spec_get(data@, key) == Some(*v),
            None => spec_get(data@, key) is None,
        },
{
    let mut i: usize = 0;
    while i < data.len()
        invariant
            i <= data@.len(),
            forall|j: int| 0 <= j < i ==> data@[j].0 != key,
        decreases data.len() - i,
    {
        if data[i].0 == key {
            assert(first_key_at(data@, key, i as int));
            assert forall|m: int| first_key_at(data@, key, m) implies m == i by {
                if m < i {
                } else if m > i {
                    assert(data@[i as int].0 != key);
                }
            }
            return Some(&data[i].1);
        }
        i = i + 1;
    }
    None
}

impl Value {
    pub fn as_str(&self) -> (r: Option<&str>)
        ensures
            match r {
                Some(s) => spec_as_str(*self) == Some(s@),
                None => spec_as_str(*self) is None,
            },
    {
        match self {
            Value::String(s) => Some(s.as_str()),
            _ => None,
        }
    }

    /// The texts the value holds (see [`spec_as_str_list`]).
    pub fn as_str_list(&self) -> (r: Vec<String>)
        ensures
            crate::directory::strs(r@) == spec_as_str_list(*self),
    {
        match self {
            Value::Array(arr) => {
                let mut out: Vec<String> = Vec::new();
                let mut i: usize = 0;
                while i < arr.len()
                    invariant
                        i <= arr@.len(),
                        crate::directory::strs(out@) == strings_of(arr@.take(i as int)),
                    decreases arr.len() - i,
                {
                    assert(arr@.take(i + 1).drop_last() =~= arr@.take(i as int));
                    let ghost before = out@;
                    match &arr[i] {
                        Value::String(s) => {
                            out.push(s.clone());
                            assert(crate::directory::strs(out@) =~= crate::directory::strs(before).push(s@));
                        },
                        _ => {},
                    }
                    i = i + 1;
                }
                assert(arr@.take(arr@.len() as int) =~= arr@);
                out
            },
            Value::String(s) => {
                let mut out: Vec<String> = Vec::new();
                out.push(s.clone());
                assert(crate::directory::strs(out@) =~= seq![s@]);
                out
            },
            _ => {
                let out: Vec<String> = Vec::new();
                assert(crate::directory::strs(out@) =~= Seq::empty());
                out
            },
        }
    }

    pub fn as_int(&self) -> (r: Option<u64>)
        ensures
            r == spec_as_int(*self),
    {
        match self {
            Value::Int(i) => Some(*i),
            _ => None,
        }
    }
}

impl Event {
    /// The value of the first datum with key `key`.
    pub fn get(&self, key: Key) -> (r: Option<&Value>)
        ensures
            match r {
                Some(v) => spec_get(self.data@, key) == Some(*v),
                None => spec_get(self.data@, key) is None,
            },
    {
        get_in(&self.data, key)
    }

    pub fn get_as_str(&self, key: Key) -> (r: Option<&str>)
        ensures
            match r {
                Some(s) => spec_get(self.data@, key) matches Some(v) && spec_as_str(v) == Some(s@),
                None => spec_get(self.data@, key) matches Some(v) ==> spec_as_str(v) is None,
            },
    {
        match self.get(key) {
            Some(v) => v.as_str(),
            None => None,
        }
    }

    pub fn get_as_str_list(&self, key: Key) -> (r: Vec<String>)
        ensures
            crate::directory::strs(r@) == match spec_get(self.data@, key) {
                Some(v) => spec_as_str_list(v),
                None => Seq::empty(),
            },
    {
        match self.get(key) {
            Some(v) => v.as_str_list(),
            None => {
                let out: Vec<String> = Vec::new();
                assert(crate::directory::strs(out@) =~= Seq::empty());
                out
            },
        }
    }

    pub fn get_as_int(&self, key: Key) -> (r: Option<u64>)
        ensures
            r == match spec_get(self.data@, key) {
                Some(v) => spec_as_int(v),
                None => None,
            },
    {
        match self.get(key) {
            Some(v) => v.as_int(),
            None => None,
        }
    }
}


// ----- durations -----------------------------------------------------------

/// `n unit` or `n units`.
pub open spec fn count_unit(n: nat, unit: Seq<char>) -> Seq<char> {
    dec(n) + " "@ + unit + if n > 1 { "s"@ } else { Seq::empty() }
}

/// `parts`, followed by `sep` when it is not empty.
pub open spec fn then_sep(parts: Seq<char>, sep: Seq<char>) -> Seq<char> {
    if parts.len() > 0 { parts + sep } else { parts }
}

/// English text of a duration in milliseconds: days, hours, minutes, seconds
/// and milliseconds that are not zero, separated by `, ` with ` and ` before
/// the last one, or `0 ms`.
pub open spec fn spec_human_ms(total: nat) -> Seq<char> {
    let days = total / 86_400_000;
    let hours = (total % 86_400_000) / 3_600_000;
    let minutes = (total % 3_600_000) / 60_000;
    let seconds = (total % 60_000) / 1000;
    let ms = total % 1000;
    let p0: Seq<char> = if days > 0 { count_unit(days, "day"@) } else { Seq::empty() };
    let p1 = if hours > 0 { then_sep(p0, ", "@) + count_unit(hours, "hour"@) } else { p0 };
    let p2 = if minutes > 0 {
        then_sep(p1, if ms + seconds == 0 { " and "@ } else { ", "@ }) + count_unit(minutes, "minute"@)
    } else {
        p1
    };
    let p3 = if seconds > 0 {
        then_sep(p2, if ms == 0 { " and "@ } else { ", "@ }) + count_unit(seconds, "second"@)
    } else {
        p2
    };
    let p4 = if ms > 0 { then_sep(p3, " and "@) + dec(ms) + " ms"@ } else { p3 };
    if p4.len() == 0 { "0 ms"@ } else { p4 }
}

/// The decimal text of a number is never empty, and is `0` only for zero.
proof fn lemma_dec_shape(n: nat)
    ensures
        dec(n).len() >= 1,
        dec(n) == "0"@ ==> n == 0,
    decreases n,
{
    reveal_strlit("0");
    if n >= 10 {
        lemma_dec_shape(n / 10);
    } else if dec(n) == "0"@ {
        assert(dec(n)[0] == '0');
        assert(crate::text::digit_char(n) == '0');
    }
}

/// `n unit(s)` is at least five characters for a unit of three or more.
proof fn lemma_count_unit_len(n: nat, unit: Seq<char>)
    requires
        unit.len() >= 3,
    ensures
        count_unit(n, unit).len() >= 5,
{
    lemma_dec_shape(n);
    reveal_strlit(" ");
}

/// Duration text law: the text is `0 ms` exactly for a zero duration; a
/// duration with a part below a second ends in that part as `<n> ms`; and a
/// duration below a second is just `<n> ms`.
pub proof fn lemma_human_ms_laws(total: nat)
    ensures
        (spec_human_ms(total) == "0 ms"@) <==> total == 0,
        total % 1000 > 0 ==> crate::text::is_suffix(dec(total % 1000) + " ms"@, spec_human_ms(total)),
        0 < total < 1000 ==> spec_human_ms(total) == dec(total) + " ms"@,
{
    reveal_strlit("0 ms");
    reveal_strlit("0");
    reveal_strlit(" ms");
    reveal_strlit(" and ");
    reveal_strlit(", ");
    reveal_strlit("day");
    reveal_strlit("hour");
    reveal_strlit("minute");
    reveal_strlit("second");
    let days = total / 86_400_000;
    let hours = (total % 86_400_000) / 3_600_000;
    let minutes = (total % 3_600_000) / 60_000;
    let seconds = (total % 60_000) / 1000;
    let ms = total % 1000;
    let p0: Seq<char> = if days > 0 { count_unit(days, "day"@) } else { Seq::empty() };
    let p1 = if hours > 0 { then_sep(p0, ", "@) + count_unit(hours, "hour"@) } else { p0 };
    let p2 = if minutes > 0 {
        then_sep(p1, if ms + seconds == 0 { " and "@ } else { ", "@ }) + count_unit(minutes, "minute"@)
    } else {
        p1
    };
    let p3 = if seconds > 0 {
        then_sep(p2, if ms == 0 { " and "@ } else { ", "@ }) + count_unit(seconds, "second"@)
    } else {
        p2
    };
    let p4 = if ms > 0 { then_sep(p3, " and "@) + dec(ms) + " ms"@ } else { p3 };
    assert(spec_human_ms(total) == if p4.len() == 0 { "0 ms"@ } else { p4 });
    lemma_count_unit_len(days, "day"@);
    lemma_count_unit_len(hours, "hour"@);
    lemma_count_unit_len(minutes, "minute"@);
    lemma_count_unit_len(seconds, "second"@);
    lemma_dec_shape(ms);
    assert(p0.len() == 0 || p0.len() >= 5);
    assert(p1.len() == 0 || p1.len() >= 5);
    assert(p2.len() == 0 || p2.len() >= 5);
    assert(p3.len() == 0 || p3.len() >= 5);
    assert(days > 0 ==> p0.len() > 0);
    assert(hours > 0 ==> p1.len() > 0);
    assert(minutes > 0 ==> p2.len() > 0);
    assert(seconds > 0 ==> p3.len() > 0);
    assert(p0.len() > 0 ==> p1.len() > 0);
    assert(p1.len() > 0 ==> p2.len() > 0);
    assert(p2.len() > 0 ==> p3.len() > 0);
    if total == 0 {
        assert(p4.len() == 0);
    } else if ms > 0 {
        let tail = dec(ms) + " ms"@;
        assert(p4 =~= then_sep(p3, " and "@) + tail);
        assert(p4.subrange(p4.len() - tail.len(), p4.len() as int) =~= tail);
        if p4 == "0 ms"@ {
            if p3.len() > 0 {
                assert(p4.len() >= 5 + 5 + 1 + 3);
            } else {
                assert(p4 =~= tail);
                assert(dec(ms) =~= p4.take(p4.len() - 3));
                assert("0 ms"@.take(1) =~= "0"@);
                assert(dec(ms) == "0"@);
            }
        }
        if total < 1000 {
            assert(days == 0 && hours == 0 && minutes == 0 && seconds == 0);
            assert(p3.len() == 0);
            assert(p4 =~= tail);
        }
    } else {
        assert(days > 0 || hours > 0 || minutes > 0 || seconds > 0) by (nonlinear_arith)
            requires
                total > 0,
                total % 1000 == 0,
                days == total / 86_400_000,
                hours == (total % 86_400_000) / 3_600_000,
                minutes == (total % 3_600_000) / 60_000,
                seconds == (total % 60_000) / 1000,
        ;
        assert(p4 == p3);
        assert(p3.len() >= 5);
    }
}

/// Appends `n unit` or `n units`.
fn push_count_unit(parts: &mut String, n: u64, unit: &str)
    ensures
        final(parts)@ == old(parts)@ + count_unit(n as nat, unit@),
{
    let digits = u64_to_string(n);
    parts.append(digits.as_str());
    parts.append(" ");
    parts.append(unit);
    if n > 1 {
        parts.append("s");
    }
    proof {
        reveal_strlit("s");
    }
    assert(final(parts)@ =~= old(parts)@ + count_unit(n as nat, unit@));
}

/// Appends `sep` when `parts` is not empty.
fn push_sep(parts: &mut String, sep: &str)
    ensures
        final(parts)@ == then_sep(old(parts)@, sep@),
{
    if parts.as_str().is_empty() == false {
        parts.append(sep);
    }
}

/// English text of a duration given in milliseconds.
pub fn milliseconds_to_human_readable(total: u64) -> (r: String)
    ensures
        r@ == spec_human_ms(total as nat),
{
    let mut ms = total;
    let days = ms / (24 * 60 * 60 * 1000);
    ms = ms % (24 * 60 * 60 * 1000);
    let hours = ms / (60 * 60 * 1000);
    ms = ms % (60 * 60 * 1000);
    let minutes = ms / (60 * 1000);
    ms = ms % (60 * 1000);
    let seconds = ms / 1000;
    ms = ms % 1000;
    assert((total as nat % 86_400_000) % 3_600_000 == total as nat % 3_600_000) by (nonlinear_arith);
    assert((total as nat % 3_600_000) % 60_000 == total as nat % 60_000) by (nonlinear_arith);
    assert((total as nat % 60_000) % 1000 == total as nat % 1000) by (nonlinear_arith);

    let mut parts = String::new();
    if days > 0 {
        push_count_unit(&mut parts, days, "day");
    }
    if hours > 0 {
        push_sep(&mut parts, ", ");
        push_count_unit(&mut parts, hours, "hour");
    }
    if minutes > 0 {
        push_sep(&mut parts, if ms + seconds == 0 { " and " } else { ", " });
        push_count_unit(&mut parts, minutes, "minute");
    }
    if seconds > 0 {
        push_sep(&mut parts, if ms == 0 { " and " } else { ", " });
        push_count_unit(&mut parts, seconds, "second");
    }
    if ms > 0 {
        push_sep(&mut parts, " and ");
        let digits = u64_to_string(ms);
        parts.append(digits.as_str());
        parts.append(" ms");
    }
    if parts.as_str().is_empty() {
        parts.append("0 ms");
    }
    parts
}


// ----- rendering -----------------------------------------------------------

impl Key {
    /// The label shown before a datum.
    pub open spec fn spec_description(self) -> Seq<char> {
        match self {
            Key::AccountName => "Account Name"@,
            Key::AccountId => "Account ID"@,
            Key::BlobId => "Blob ID"@,
            Key::CausedBy => "Caused by"@,
            Key::ChangeId => "Change ID"@,
            Key::Code => "Code"@,
            Key::Collection => "Collection"@,
            Key::Contents => "Contents"@,
            Key::Details => "Details"@,
            Key::DkimFail => "DKIM Failure Count"@,
            Key::DkimNone => "DKIM None Count"@,
            Key::DkimPass => "DKIM Pass Count"@,
            Key::DmarcNone => "DMARC None Count"@,
            Key::DmarcPass => "DMARC Pass Count"@,
            Key::DmarcQuarantine => "DMARC Quarantine Count"@,
            Key::DmarcReject => "DMARC Reject Count"@,
            Key::DocumentId => "Document ID"@,
            Key::Domain => "Domain name"@,
            Key::Due => "Due in"@,
            Key::Elapsed => "Completed in"@,
            Key::Expires => "Expires in"@,
            Key::From => "From"@,
            Key::Hostname => "Hostname"@,
            Key::Id => "Id"@,
            Key::Key => "Key"@,
            Key::Limit => "Limit"@,
            Key::ListenerId => "Listener ID"@,
            Key::LocalIp => "Local IP"@,
            Key::LocalPort => "Local Port"@,
            Key::MailboxName => "Mailbox Name"@,
            Key::MailboxId => "Mailbox ID"@,
            Key::MessageId => "Message ID"@,
            Key::NextDsn => "Next DSN at"@,
            Key::NextRetry => "Next Retry at"@,
            Key::Path => "Path"@,
            Key::Policy => "Policy"@,
            Key::QueueId => "Queue ID"@,
            Key::RangeFrom => "Range from"@,
            Key::RangeTo => "Range to"@,
            Key::Reason => "Reason"@,
            Key::RemoteIp => "Remote IP"@,
            Key::RemotePort => "Remote Port"@,
            Key::ReportId => "Report ID"@,
            Key::Result => "Result"@,
            Key::Size => "Size"@,
            Key::Source => "Source"@,
            Key::SpanId => "Span ID"@,
            Key::SpfFail => "SPF Failure Count"@,
            Key::SpfNone => "SPF None Count"@,
            Key::SpfPass => "SPF Pass Count"@,
            Key::Strict => "Strict"@,
            Key::Tls => "TLS"@,
            Key::To => "To"@,
            Key::Total => "Total"@,
            Key::TotalFailures => "Total Failures"@,
            Key::TotalSuccesses => "Total Successes"@,
            Key::Type => "Type"@,
            Key::Uid => "UID"@,
            Key::UidNext => "UID Next"@,
            Key::UidValidity => "UID Validity"@,
            Key::Url => "URL"@,
            Key::ValidFrom => "Valid from"@,
            Key::ValidTo => "Valid to"@,
            Key::Value => "Value"@,
            Key::Version => "Version"@,
        }
    }

    /// The label shown before a datum.
    pub fn description(&self) -> (r: &'static str)
        ensures
            r@ == self.spec_description(),
    {
        match self {
            Key::AccountName => "Account Name",
            Key::AccountId => "Account ID",
            Key::BlobId => "Blob ID",
            Key::CausedBy => "Caused by",
            Key::ChangeId => "Change ID",
            Key::Code => "Code",
            Key::Collection => "Collection",
            Key::Contents => "Contents",
            Key::Details => "Details",
            Key::DkimFail => "DKIM Failure Count",
            Key::DkimNone => "DKIM None Count",
            Key::DkimPass => "DKIM Pass Count",
            Key::DmarcNone => "DMARC None Count",
            Key::DmarcPass => "DMARC Pass Count",
            Key::DmarcQuarantine => "DMARC Quarantine Count",
            Key::DmarcReject => "DMARC Reject Count",
            Key::DocumentId => "Document ID",
            Key::Domain => "Domain name",
            Key::Due => "Due in",
            Key::Elapsed => "Completed in",
            Key::Expires => "Expires in",
            Key::From => "From",
            Key::Hostname => "Hostname",
            Key::Id => "Id",
            Key::Key => "Key",
            Key::Limit => "Limit",
            Key::ListenerId => "Listener ID",
            Key::LocalIp => "Local IP",
            Key::LocalPort => "Local Port",
            Key::MailboxName => "Mailbox Name",
            Key::MailboxId => "Mailbox ID",
            Key::MessageId => "Message ID",
            Key::NextDsn => "Next DSN at",
            Key::NextRetry => "Next Retry at",
            Key::Path => "Path",
            Key::Policy => "Policy",
            Key::QueueId => "Queue ID",
            Key::RangeFrom => "Range from",
            Key::RangeTo => "Range to",
            Key::Reason => "Reason",
            Key::RemoteIp => "Remote IP",
            Key::RemotePort => "Remote Port",
            Key::ReportId => "Report ID",
            Key::Result => "Result",
            Key::Size => "Size",
            Key::Source => "Source",
            Key::SpanId => "Span ID",
            Key::SpfFail => "SPF Failure Count",
            Key::SpfNone => "SPF None Count",
            Key::SpfPass => "SPF Pass Count",
            Key::Strict => "Strict",
            Key::Tls => "TLS",
            Key::To => "To",
            Key::Total => "Total",
            Key::TotalFailures => "Total Failures",
            Key::TotalSuccesses => "Total Successes",
            Key::Type => "Type",
            Key::Uid => "UID",
            Key::UidNext => "UID Next",
            Key::UidValidity => "UID Validity",
            Key::Url => "URL",
            Key::ValidFrom => "Valid from",
            Key::ValidTo => "Valid to",
            Key::Value => "Value",
            Key::Version => "Version",
        }
    }
}


/// How a datum is rendered: bold text, a link, a bold floating point number
/// (its bit pattern), a nested event with its own data, or a list.
#[derive(Debug, PartialEq, Eq)]
pub enum Formatted {
    Text(String),
    Link { href: String, text: String },
    Float(u64),
    Event { text: String, items: Vec<FormattedKv> },
    List(Vec<Formatted>),
}

/// A labelled datum: the key's description followed by a space, and the rendered value.
#[derive(Debug, PartialEq, Eq)]
pub struct FormattedKv {
    pub label: String,
    pub value: Formatted,
}

/// Keys whose string values are timestamps.
pub open spec fn is_date_key(key: Key) -> bool {
    key is ValidFrom || key is ValidTo || key is RangeFrom || key is RangeTo || key is Due || key is NextDsn
        || key is NextRetry
}

/// Human readable size of a number of bytes in SI units (as `humansize` writes it).
pub uninterp spec fn spec_format_size(bytes: u64) -> Seq<char>;

/// `humansize::format_size(bytes, DECIMAL)`.
#[verifier::external_body]
pub fn format_size_decimal(bytes: u64) -> (s: String)
    ensures
        s@ == spec_format_size(bytes),
{
    format_size(bytes, DECIMAL)
}

/// Text of an optional string, empty when absent.
pub open spec fn opt_text(o: Option<String>) -> Seq<char> {
    match o {
        Some(s) => s@,
        None => Seq::empty(),
    }
}

/// `f` is how `value` is rendered under `key`. A timestamp that parses as
/// RFC 3339 is shown as weekday, date and time in the machine's local time
/// (at whatever offset from UTC its time zone gives).
pub open spec fn formats_as(f: Formatted, key: Key, value: Value) -> bool
    decreases value,
{
    match value {
        Value::String(v) => if is_date_key(key) && spec_parse_rfc3339(v@) is Some {
            f matches Formatted::Text(t) && crate::time::local_rendering(
                t@,
                "%a, %d %b %Y %H:%M:%S"@,
                spec_parse_rfc3339(v@).unwrap(),
            )
        } else {
            f matches Formatted::Text(t) && t@ == v@
        },
        Value::Int(v) => match key {
            Key::Elapsed => f matches Formatted::Text(t) && t@ == spec_human_ms(v as nat),
            Key::QueueId => f matches Formatted::Link { href, text } && href@ == "/manage/tracing/delivery?queue_id="@
                + dec(v as nat) && text@ == dec(v as nat),
            Key::SpanId => f matches Formatted::Link { href, text } && href@ == "/manage/tracing/span/"@ + dec(
                v as nat,
            ) && text@ == dec(v as nat),
            Key::Size => f matches Formatted::Text(t) && t@ == spec_format_size(v),
            _ => f matches Formatted::Text(t) && t@ == dec(v as nat),
        },
        Value::Float(bits) => f == Formatted::Float(bits),
        Value::Bool(b) => f matches Formatted::Text(t) && t@ == if key is Tls {
            if b { "enabled"@ } else { "disabled"@ }
        } else {
            if b { "true"@ } else { "false"@ }
        },
        Value::Event(e) => f matches Formatted::Event { text, items } && text@ == opt_text(e.text) && items@.len()
            == e.data@.len() && forall|i: int|
            0 <= i < e.data@.len() ==> {
                &&& (#[trigger] items@[i]).label@ == e.data@[i].0.spec_description() + " "@
                &&& formats_as(items@[i].value, e.data@[i].0, e.data@[i].1)
            },
        Value::Array(arr) => f matches Formatted::List(l) && l@.len() == arr@.len() && forall|i: int|
            0 <= i < arr@.len() ==> formats_as(#[trigger] l@[i], key, arr@[i]),
    }
}


/// Renders a datum (see [`formats_as`]).
#[verifier::loop_isolation(false)]
pub fn format_value(key: Key, value: &Value) -> (f: Formatted)
    ensures
        formats_as(f, key, *value),
    decreases value, 0nat,
{
    match value {
        Value::String(v) => {
            let is_date = match key {
                Key::ValidFrom | Key::ValidTo | Key::RangeFrom | Key::RangeTo | Key::Due | Key::NextDsn
                | Key::NextRetry => true,
                _ => false,
            };
            if is_date {
                match parse_rfc3339(v.as_str()) {
                    Some(t) => Formatted::Text(t.format_date_time()),
                    None => Formatted::Text(v.clone()),
                }
            } else {
                Formatted::Text(v.clone())
            }
        },
        Value::Int(v) => match key {
            Key::Elapsed => Formatted::Text(milliseconds_to_human_readable(*v)),
            Key::QueueId => {
                let digits = u64_to_string(*v);
                Formatted::Link {
                    href: concat("/manage/tracing/delivery?queue_id=", digits.as_str()),
                    text: digits,
                }
            },
            Key::SpanId => {
                let digits = u64_to_string(*v);
                Formatted::Link { href: concat("/manage/tracing/span/", digits.as_str()), text: digits }
            },
            Key::Size => Formatted::Text(format_size_decimal(*v)),
            _ => Formatted::Text(u64_to_string(*v)),
        },
        Value::Float(bits) => Formatted::Float(*bits),
        Value::Bool(b) => {
            let text = match key {
                Key::Tls => if *b { "enabled" } else { "disabled" },
                _ => if *b { "true" } else { "false" },
            };
            Formatted::Text(String::from_str(text))
        },
        Value::Event(e) => {
            let text = match &e.text {
                Some(t) => t.clone(),
                None => String::new(),
            };
            let mut items: Vec<FormattedKv> = Vec::new();
            let mut i: usize = 0;
            while i < e.data.len()
                invariant
                    i <= e.data@.len(),
                    items@.len() == i,
                    forall|j: int|
                        0 <= j < i ==> {
                            &&& (#[trigger] items@[j]).label@ == e.data@[j].0.spec_description() + " "@
                            &&& formats_as(items@[j].value, e.data@[j].0, e.data@[j].1)
                        },
                decreases e.data.len() - i,
            {
                proof {
                    let ev = (*value)->Event_0;
                    assert(ev == *e);
                    assert(decreases_to!(*value => ev));
                    assert(decreases_to!(ev => ev.data));
                    assert(decreases_to!(ev.data => ev.data@));
                    assert(decreases_to!(ev.data@ => ev.data@[i as int]));
                    assert(decreases_to!(ev.data@[i as int] => ev.data@[i as int].1));
                    assert(decreases_to!(*value => e.data@[i as int].1));
                }
                items.push(format_kv(e.data[i].0, &e.data[i].1));
                i = i + 1;
            }
            Formatted::Event { text, items }
        },
        Value::Array(arr) => {
            let mut l: Vec<Formatted> = Vec::new();
            let mut i: usize = 0;
            while i < arr.len()
                invariant
                    i <= arr@.len(),
                    l@.len() == i,
                    forall|j: int| 0 <= j < i ==> formats_as(#[trigger] l@[j], key, arr@[j]),
                decreases arr.len() - i,
            {
                proof {
                    let a = (*value)->Array_0;
                    assert(a == *arr);
                    assert(decreases_to!(*value => a));
                    assert(decreases_to!(a => a@));
                    assert(decreases_to!(a@ => a@[i as int]));
                    assert(decreases_to!(*value => arr@[i as int]));
                }
                l.push(format_value(key, &arr[i]));
                i = i + 1;
            }
            Formatted::List(l)
        },
    }
}

/// Renders a labelled datum: the key's description and a space, then the value.
pub fn format_kv(key: Key, value: &Value) -> (kv: FormattedKv)
    ensures
        kv.label@ == key.spec_description() + " "@,
        formats_as(kv.value, key, *value),
    decreases value, 1nat,
{
    FormattedKv { label: concat(key.description(), " "), value: format_value(key, value) }
}

/// The icon of an event: a clock for start and end events, a warning for
/// failures, errors, invalid input and rejections, a message otherwise.
#[derive(Debug, Clone, Copy, PartialEq, Eq, Structural)]
pub enum EventIcon {
    Clock,
    ExclamationCircle,
    ChatBubbleBottom,
}

/// The icon of an event of type `typ`.
pub open spec fn spec_event_icon(typ: Seq<char>) -> EventIcon {
    if crate::text::is_suffix("-start"@, typ) || crate::text::is_suffix("-end"@, typ) {
        EventIcon::Clock
    } else if crate::text::contains_seq(typ, "failed"@) || crate::text::contains_seq(typ, "error"@)
        || crate::text::contains_seq(typ, "invalid"@) || crate::text::contains_seq(typ, "reject"@) {
        EventIcon::ExclamationCircle
    } else {
        EventIcon::ChatBubbleBottom
    }
}

impl Event {
    /// The icon shown next to the event.
    pub fn icon(&self) -> (r: EventIcon)
        ensures
            r == spec_event_icon(self.typ@),
    {
        let id = self.typ.as_str();
        if ends_with(id, "-start") || ends_with(id, "-end") {
            EventIcon::Clock
        } else if contains(id, "failed") || contains(id, "error") || contains(id, "invalid") || contains(
            id,
            "reject",
        ) {
            EventIcon::ExclamationCircle
        } else {
            EventIcon::ChatBubbleBottom
        }
    }
}


// ----- live tracing and span lists ------------------------------------------

/// The ASCII white space characters.
pub open spec fn ascii_whitespace() -> Seq<char> {
    seq![' ', '\t', '\n', '\x0C', '\r']
}

/// The words of `s`: its pieces between ASCII white space, empty ones left
/// out, as `str::split_ascii_whitespace` yields them.
pub open spec fn ascii_words(s: Seq<char>) -> Seq<Seq<char>> {
    split_on(s, ascii_whitespace()).filter(|w: Seq<char>| w.len() > 0)
}

/// The query parameter a live tracing keyword stands for: `key:value`
/// selects by key (both trimmed), any other word is a free-text filter.
pub open spec fn keyword_param(word: Seq<char>) -> (Seq<char>, Seq<char>) {
    match spec_split_once(word, ":"@) {
        Some((key, value)) => (spec_trim(key), spec_trim(value)),
        None => ("filter"@, word),
    }
}

/// The query parameters of a live tracing filter, one per word.
pub open spec fn spec_live_params(filter: Seq<char>) -> Seq<(Seq<char>, Seq<char>)> {
    ascii_words(filter).map_values(|w: Seq<char>| keyword_param(w))
}

/// The query parameters of a live tracing filter.
pub fn live_params(filter: &str) -> (r: Vec<(String, String)>)
    ensures
        r@.map_values(|p: (String, String)| (p.0@, p.1@)) == spec_live_params(filter@),
{
    let seps = vec![' ', '\t', '\n', '\x0C', '\r'];
    assert(seps@ =~= ascii_whitespace());
    let pieces = split_chars(filter, &seps);
    let ghost all = strs(pieces@);
    let mut out: Vec<(String, String)> = Vec::new();
    let mut i: usize = 0;
    while i < pieces.len()
        invariant
            i <= pieces@.len(),
            all == strs(pieces@),
            all == split_on(filter@, ascii_whitespace()),
            out@.map_values(|p: (String, String)| (p.0@, p.1@)) == all.take(i as int).filter(
                |w: Seq<char>| w.len() > 0,
            ).map_values(|w: Seq<char>| keyword_param(w)),
        decreases pieces.len() - i,
    {
        let word = pieces[i].as_str();
        let ghost before = out@.map_values(|p: (String, String)| (p.0@, p.1@));
        proof {
            assert(all.take(i + 1).drop_last() =~= all.take(i as int));
            assert(all[i as int] == word@);
            reveal(Seq::filter);
        }
        if word.unicode_len() > 0 {
            let param = match split_once(word, ":") {
                Some((key, value)) => (trim(key.as_str()), trim(value.as_str())),
                None => (String::from_str("filter"), String::from_str(word)),
            };
            out.push(param);
            assert(out@.map_values(|p: (String, String)| (p.0@, p.1@)) =~= before.push(keyword_param(word@)));
            assert(all.take(i + 1).filter(|w: Seq<char>| w.len() > 0) =~= all.take(i as int).filter(
                |w: Seq<char>| w.len() > 0,
            ).push(word@));
        } else {
            assert(all.take(i + 1).filter(|w: Seq<char>| w.len() > 0) =~= all.take(i as int).filter(
                |w: Seq<char>| w.len() > 0,
            ));
        }
        i = i + 1;
    }
    assert(all.take(pieces@.len() as int) =~= all);
    out
}

/// Events kept in the live tracing history.
pub const LIVE_HISTORY_LIMIT: usize = 1000;

/// The history after a batch arrives: the batch appended, then the oldest
/// entries dropped so that at most `limit` remain.
pub open spec fn capped<T>(history: Seq<T>, batch: Seq<T>, limit: int) -> Seq<T> {
    let all = history + batch;
    if all.len() > limit {
        all.skip(all.len() - limit)
    } else {
        all
    }
}

/// Appends a batch to a history, dropping its oldest entries beyond `limit`.
/// A batch larger than the limit is not accepted.
pub fn push_capped<T>(history: &mut Vec<T>, batch: Vec<T>, limit: usize)
    requires
        batch@.len() <= limit,
    ensures
        final(history)@ == capped(old(history)@, batch@, limit as int),
{
    let ghost h0 = history@;
    let ghost b0 = batch@;
    let n = batch.len();
    if history.len() > limit - n {
        let drop = history.len() - (limit - n);
        let mut k: usize = 0;
        while k < drop
            invariant
                k <= drop,
                drop <= h0.len(),
                history@ == h0.skip(k as int),
            decreases drop - k,
        {
            history.remove(0);
            assert(history@ =~= h0.skip(k + 1));
            k = k + 1;
        }
    }
    let ghost kept = history@;
    let mut batch = batch;
    let mut i: usize = 0;
    while i < n
        invariant
            n == b0.len(),
            i <= n,
            batch@ == b0.skip(i as int),
            history@ == kept + b0.take(i as int),
        decreases n - i,
    {
        let item = batch.remove(0);
        assert(item == b0[i as int]);
        assert(batch@ =~= b0.skip(i + 1));
        history.push(item);
        assert(history@ =~= kept + b0.take(i + 1));
        i = i + 1;
    }
    assert(b0.take(n as int) =~= b0);
    assert(history@ =~= capped(h0, b0, limit as int));
}

/// The span list a page shows: the event type listed, its title, subtitle
/// and address.
#[derive(Debug, Clone, Copy, PartialEq, Eq)]
pub struct PageDetails {
    pub event_type: &'static str,
    pub title: &'static str,
    pub subtitle: &'static str,
    pub url: &'static str,
}

/// The delivery attempt history for `delivery`, else received messages.
pub fn page_details(object: Option<&str>) -> (r: PageDetails)
    ensures
        (match object {
            Some(o) => o@ == "delivery"@,
            None => false,
        }) ==> r.event_type@ == "delivery.attempt-start"@ && r.title@ == "Delivery Attempt History"@
            && r.subtitle@ == "View and search the message delivery history"@ && r.url@
            == "/manage/tracing/delivery"@,
        !(match object {
            Some(o) => o@ == "delivery"@,
            None => false,
        }) ==> r.event_type@ == "smtp.connection-start"@ && r.title@ == "Received Messages"@ && r.subtitle@
            == "View and search the received messages history"@ && r.url@ == "/manage/tracing/received"@,
{
    let delivery = match object {
        Some(o) => str_eq(o, "delivery"),
        None => false,
    };
    if delivery {
        PageDetails {
            event_type: "delivery.attempt-start",
            title: "Delivery Attempt History",
            subtitle: "View and search the message delivery history",
            url: "/manage/tracing/delivery",
        }
    } else {
        PageDetails {
            event_type: "smtp.connection-start",
            title: "Received Messages",
            subtitle: "View and search the received messages history",
            url: "/manage/tracing/received",
        }
    }
}

/// The recipients column of a history row: the first recipient, and how
/// many more there are.
pub open spec fn spec_recipients_column(to: Seq<Seq<char>>) -> Seq<char> {
    if to.len() == 0 {
        Seq::empty()
    } else if to.len() == 1 {
        to[0]
    } else {
        to[0] + " +"@ + dec((to.len() - 1) as nat) + " more"@
    }
}

pub fn recipients_column(to: &Vec<String>) -> (r: String)
    ensures
        r@ == spec_recipients_column(strs(to@)),
{
    if to.len() == 0 {
        String::new()
    } else {
        let mut r = to[0].clone();
        if to.len() > 1 {
            r.append(" +");
            let more = u64_to_string((to.len() - 1) as u64);
            r.append(more.as_str());
            r.append(" more");
        }
        r
    }
}

/// The address of a span's page.
pub fn span_url(span_id: u64) -> (r: String)
    ensures
        r@ == "/manage/tracing/span/"@ + dec(span_id as nat),
{
    let id = u64_to_string(span_id);
    concat("/manage/tracing/span/", id.as_str())
}


/// History law: after a batch, the history holds at most `limit` events
/// and ends with the whole batch, the newest last.
pub proof fn lemma_capped_keeps_newest<T>(history: Seq<T>, batch: Seq<T>, limit: int)
    requires
        batch.len() <= limit,
    ensures
        capped(history, batch, limit).len() <= limit,
        capped(history, batch, limit).len() >= batch.len(),
        capped(history, batch, limit).skip(capped(history, batch, limit).len() - batch.len()) == batch,
{
    let all = history + batch;
    let c = capped(history, batch, limit);
    assert(c.skip(c.len() - batch.len()) =~= batch);
}


// ----- spans ---------------------------------------------------------------------------

/// What a span page shows of the span besides its events.
#[derive(Debug, Clone, PartialEq, Eq)]
pub struct SpanInfo {
    /// A received message (first event `smtp.*`) or a delivery attempt.
    pub kind: &'static str,
    /// The list the page goes back to.
    pub back_url: &'static str,
    /// Events between the first and the last.
    pub num_events: usize,
    /// When the span started and ended.
    pub start: UtcDateTime,
    pub end: UtcDateTime,
}

/// What a span page shows of the events; `None` when there are fewer than
/// two events, which is no span.
pub fn span_info(events: &Vec<Event>) -> (r: Option<SpanInfo>)
    ensures
        r is None <==> events@.len() < 2,
        r matches Some(info) ==> {
            &&& info.num_events == events@.len() - 2
            &&& info.start == events@[0].created_at
            &&& info.end == events@[events@.len() - 1].created_at
            &&& is_prefix("smtp."@, events@[0].typ@) ==> info.kind@ == "Received Message"@ && info.back_url@
                == "/manage/tracing/received"@
            &&& !is_prefix("smtp."@, events@[0].typ@) ==> info.kind@ == "Delivery Attempt"@ && info.back_url@
                == "/manage/tracing/delivery"@
        },
{
    if events.len() < 2 {
        return None;
    }
    let first = &events[0];
    let received = starts_with(first.typ.as_str(), "smtp.");
    let (kind, back_url) = if received {
        ("Received Message", "/manage/tracing/received")
    } else {
        ("Delivery Attempt", "/manage/tracing/delivery")
    };
    Some(
        SpanInfo {
            kind,
            back_url,
            num_events: events.len() - 2,
            start: first.created_at,
            end: events[events.len() - 1].created_at,
        },
    )
}

/// The time line of an event: its time of day and how long after the span
/// started it came.
pub open spec fn spec_event_time_line(start: UtcDateTime, at: UtcDateTime, time: Seq<char>) -> Seq<char> {
    time + " ("@ + spec_humanize_span(start, at) + " later)"@
}

/// The time line of an event of a span: its local time of day (at the
/// machine's offset from UTC) and how long after the span's start it came;
/// `None` when an instant is not one chrono can represent.
pub fn event_time_line(event: &Event, span_start: UtcDateTime) -> (r: Option<String>)
    ensures
        r is Some <==> spec_chrono_valid(span_start.secs, span_start.nanos) && spec_chrono_valid(
            event.created_at.secs,
            event.created_at.nanos,
        ),
        r matches Some(line) ==> exists|time: Seq<char>|
            crate::time::local_rendering(time, "%H:%M:%S"@, event.created_at) && line@
                == #[trigger] spec_event_time_line(span_start, event.created_at, time),
{
    if !is_representable(span_start) || !is_representable(event.created_at) {
        return None;
    }
    let time = event.created_at.format_time();
    let later = humanize_span(span_start, event.created_at);
    let mut r = time;
    let ghost t = r@;
    r.append(" (");
    r.append(later.as_str());
    r.append(" later)");
    assert(r@ =~= spec_event_time_line(span_start, event.created_at, t));
    Some(r)
}

} // verus!
