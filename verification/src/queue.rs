//! Messages in the outgoing queue, their recipients and delivery status.
use vstd::prelude::*;

use crate::directory::{strs, vec_contains_str};
use crate::text::{
    dec, is_prefix, join, join_seqs, sort_strings, sorted_seqs, spec_split_once, split_once, starts_with, u64_to_string,
};
use vstd::utf8::{decode_utf8, valid_utf8};
use crate::time::{before, UtcDateTime};
use crate::{maybe_plural, spec_maybe_plural, Color};

verus! {

/// Delivery status of one recipient.
#[derive(Debug, Clone, PartialEq, Eq)]
pub enum Status {
    Scheduled,
    Completed(String),
    TemporaryFailure(String),
    PermanentFailure(String),
}

/// A recipient of a queued message.
#[derive(Debug, Clone, PartialEq, Eq)]
pub struct Recipient {
    pub address: String,
    pub status: Status,
    pub queue: String,
    pub retry_num: u32,
    pub next_retry: Option<UtcDateTime>,
    pub next_notify: Option<UtcDateTime>,
    pub expires: Option<UtcDateTime>,
    pub orcpt: Option<String>,
}

/// A queued message.
#[derive(Debug, Clone, PartialEq, Eq)]
pub struct Message {
    pub id: u64,
    pub return_path: String,
    pub recipients: Vec<Recipient>,
    pub created: UtcDateTime,
    pub size: usize,
    pub priority: i16,
    pub env_id: Option<String>,
    pub blob_hash: String,
}

/// Delivery to this recipient is still to be attempted (scheduled or failed temporarily).
pub open spec fn is_pending(r: Recipient) -> bool {
    r.status is Scheduled || r.status is TemporaryFailure
}

/// The recipients still pending, in order.
pub open spec fn pending(rs: Seq<Recipient>) -> Seq<Recipient> {
    rs.filter(|r: Recipient| is_pending(r))
}

/// Which time of a recipient a lookup reads.
pub enum TimeField {
    NextRetry,
    NextNotify,
    Expires,
}

/// The time `field` of a recipient.
pub open spec fn time_of(r: Recipient, field: TimeField) -> Option<UtcDateTime> {
    match field {
        TimeField::NextRetry => r.next_retry,
        TimeField::NextNotify => r.next_notify,
        TimeField::Expires => r.expires,
    }
}

/// The times `field` of the pending recipients, in order.
pub open spec fn pending_times(rs: Seq<Recipient>, field: TimeField) -> Seq<Option<UtcDateTime>> {
    pending(rs).map_values(|r: Recipient| time_of(r, field))
}

/// `t` is one of the times and none of the times is earlier.
pub open spec fn is_earliest(times: Seq<Option<UtcDateTime>>, t: UtcDateTime) -> bool {
    &&& times.contains(Some(t))
    &&& forall|j: int| 0 <= j < times.len() ==> (#[trigger] times[j] matches Some(u) ==> !before(u, t))
}

/// When the first time is absent, all are absent (otherwise the lookup
/// unwraps an absent time and panics).
pub open spec fn first_time_decides(times: Seq<Option<UtcDateTime>>) -> bool {
    times.len() > 0 && times[0] is None ==> forall|j: int| 0 <= j < times.len() ==> #[trigger] times[j] is None
}

/// The earliest of the times, led by the first one: none when there is no
/// time or the first is absent.
pub open spec fn earliest_led_by_first(times: Seq<Option<UtcDateTime>>, r: Option<UtcDateTime>) -> bool {
    match r {
        None => times.len() == 0 || times[0] is None,
        Some(t) => times.len() > 0 && times[0] is Some && is_earliest(times, t),
    }
}

/// The earliest of the present times, none when no time is present.
pub open spec fn earliest_present(times: Seq<Option<UtcDateTime>>, r: Option<UtcDateTime>) -> bool {
    match r {
        None => forall|j: int| 0 <= j < times.len() ==> #[trigger] times[j] is None,
        Some(t) => is_earliest(times, t),
    }
}

/// Reads a time of a recipient.
fn read_time(r: &Recipient, field: &TimeField) -> (t: Option<UtcDateTime>)
    ensures
        t == time_of(*r, *field),
{
    match field {
        TimeField::NextRetry => r.next_retry,
        TimeField::NextNotify => r.next_notify,
        TimeField::Expires => r.expires,
    }
}

/// Whether a recipient is pending.
fn recipient_pending(r: &Recipient) -> (b: bool)
    ensures
        b == is_pending(*r),
{
    match r.status {
        Status::Scheduled | Status::TemporaryFailure(_) => true,
        _ => false,
    }
}

/// The earliest time of the pending recipients, led by the first pending one
/// (the lookup of the next retry and of the next notification).
fn earliest_pending_led(rs: &Vec<Recipient>, field: TimeField) -> (r: Option<UtcDateTime>)
    requires
        first_time_decides(pending_times(rs@, field)),
    ensures
        earliest_led_by_first(pending_times(rs@, field), r),
{
    let ghost all = pending_times(rs@, field);
    let ghost f = |r: Recipient| time_of(r, field);
    let ghost pred = |r: Recipient| is_pending(r);
    let mut next_event: Option<UtcDateTime> = None;
    let mut pos: usize = 0;
    let mut i: usize = 0;
    while i < rs.len()
        invariant
            i <= rs@.len(),
            all == pending_times(rs@, field),
            f == (|r: Recipient| time_of(r, field)),
            pred == (|r: Recipient| is_pending(r)),
            first_time_decides(all),
            pos == rs@.take(i as int).filter(pred).len(),
            pos <= all.len(),
            forall|k: int| 0 <= k < pos ==> all[k] == #[trigger] rs@.take(i as int).filter(pred).map_values(f)[k],
            earliest_led_by_first(rs@.take(i as int).filter(pred).map_values(f), next_event),
        decreases rs.len() - i,
    {
        let ghost prefix = rs@.take(i as int);
        let ghost x = rs@[i as int];
        assert(rs@.take(i + 1) =~= prefix.push(x));
        proof {
            prefix.lemma_filter_push(x, pred);
        }
        let rcpt = &rs[i];
        if recipient_pending(rcpt) {
            let t = read_time(rcpt, &field);
            let ghost times = prefix.filter(pred).map_values(f);
            proof {
                let fp = prefix.filter(pred).push(x);
                assert(fp.map_values(f) =~= times.push(t));
                assert(rs@ =~= prefix.push(x) + rs@.skip(i + 1));
                Seq::filter_distributes_over_add(prefix.push(x), rs@.skip(i + 1), pred);
                let full = rs@.filter(pred);
                assert(full =~= fp + rs@.skip(i + 1).filter(pred));
                assert forall|k: int| 0 <= k <= pos implies all[k] == #[trigger] fp.map_values(f)[k] by {
                    assert(full[k] == fp[k]);
                }
                assert(all[pos as int] == t);
                if pos > 0 && t is Some && next_event is None {
                    assert(all[0] == times[0]);
                    assert(all[pos as int] is None);
                }
            }
            let replace = if pos == 0 {
                true
            } else {
                match t {
                    Some(nr) => match next_event {
                        Some(cur) => nr.lt(&cur),
                        None => false,
                    },
                    None => false,
                }
            };
            if replace {
                next_event = t;
            }
            proof {
                let nt = times.push(t);
                assert(nt[times.len() as int] == t);
                if pos > 0 {
                    assert(nt[0] == times[0]);
                }
                match next_event {
                    Some(e) => {
                        assert forall|j: int| 0 <= j < nt.len() implies (#[trigger] nt[j] matches Some(u) ==> !before(
                            u,
                            e,
                        )) by {
                            if j < times.len() {
                                assert(nt[j] == times[j]);
                            }
                        }
                        if replace {
                            assert(nt[times.len() as int] == Some(e));
                        } else {
                            let k = choose|k: int| 0 <= k < times.len() && times[k] == Some(e);
                            assert(nt[k] == Some(e));
                        }
                    },
                    None => {},
                }
            }
            pos = pos + 1;
        } else {
            assert(prefix.push(x).filter(pred) == prefix.filter(pred));
        }
        i = i + 1;
    }
    assert(rs@.take(rs@.len() as int) =~= rs@);
    next_event
}


/// The earliest present expiry among the pending recipients.
fn earliest_pending_present(rs: &Vec<Recipient>) -> (r: Option<UtcDateTime>)
    ensures
        earliest_present(pending_times(rs@, TimeField::Expires), r),
{
    let ghost all = pending_times(rs@, TimeField::Expires);
    let ghost f = |r: Recipient| time_of(r, TimeField::Expires);
    let ghost pred = |r: Recipient| is_pending(r);
    let mut next_event: Option<UtcDateTime> = None;
    let mut i: usize = 0;
    while i < rs.len()
        invariant
            i <= rs@.len(),
            all == pending_times(rs@, TimeField::Expires),
            f == (|r: Recipient| time_of(r, TimeField::Expires)),
            pred == (|r: Recipient| is_pending(r)),
            earliest_present(rs@.take(i as int).filter(pred).map_values(f), next_event),
        decreases rs.len() - i,
    {
        let ghost prefix = rs@.take(i as int);
        let ghost x = rs@[i as int];
        assert(rs@.take(i + 1) =~= prefix.push(x));
        proof {
            prefix.lemma_filter_push(x, pred);
        }
        let rcpt = &rs[i];
        if recipient_pending(rcpt) {
            let ghost times = prefix.filter(pred).map_values(f);
            let ghost old_event = next_event;
            assert(prefix.filter(pred).push(x).map_values(f) =~= times.push(rcpt.expires));
            if let Some(expires) = rcpt.expires {
                match next_event {
                    Some(cur) => {
                        if expires.lt(&cur) {
                            next_event = Some(expires);
                        }
                    },
                    None => {
                        next_event = Some(expires);
                    },
                }
            }
            proof {
                let nt = times.push(rcpt.expires);
                assert(nt[times.len() as int] == rcpt.expires);
                match next_event {
                    Some(e) => {
                        assert forall|j: int| 0 <= j < nt.len() implies (#[trigger] nt[j] matches Some(u) ==> !before(
                            u,
                            e,
                        )) by {
                            if j < times.len() {
                                assert(nt[j] == times[j]);
                            }
                        }
                        if next_event != old_event {
                            assert(nt[times.len() as int] == Some(e));
                        } else {
                            let k = choose|k: int| 0 <= k < times.len() && times[k] == Some(e);
                            assert(nt[k] == Some(e));
                        }
                    },
                    None => {
                        assert forall|j: int| 0 <= j < nt.len() implies #[trigger] nt[j] is None by {
                            if j < times.len() {
                                assert(nt[j] == times[j]);
                            }
                        }
                    },
                }
            }
        } else {
            assert(prefix.push(x).filter(pred) == prefix.filter(pred));
        }
        i = i + 1;
    }
    assert(rs@.take(rs@.len() as int) =~= rs@);
    next_event
}

impl Message {
    /// The return path, or `Mailer Daemon` for bounces (empty return path).
    pub fn return_path(&self) -> (r: &str)
        ensures
            r@ == if self.return_path@.len() > 0 { self.return_path@ } else { "Mailer Daemon"@ },
    {
        if !self.return_path.as_str().is_empty() {
            self.return_path.as_str()
        } else {
            "Mailer Daemon"
        }
    }

    /// The next delivery attempt: the earliest retry time of the pending
    /// recipients, none when nothing is pending or the first pending
    /// recipient has no retry time.
    pub fn next_retry(&self) -> (r: Option<UtcDateTime>)
        requires
            first_time_decides(pending_times(self.recipients@, TimeField::NextRetry)),
        ensures
            earliest_led_by_first(pending_times(self.recipients@, TimeField::NextRetry), r),
    {
        earliest_pending_led(&self.recipients, TimeField::NextRetry)
    }

    /// The next delivery status notification, chosen as [`Message::next_retry`]
    /// chooses the next retry.
    pub fn next_dsn(&self) -> (r: Option<UtcDateTime>)
        requires
            first_time_decides(pending_times(self.recipients@, TimeField::NextNotify)),
        ensures
            earliest_led_by_first(pending_times(self.recipients@, TimeField::NextNotify), r),
    {
        earliest_pending_led(&self.recipients, TimeField::NextNotify)
    }

    /// The earliest expiry of the pending recipients that have one.
    pub fn expires(&self) -> (r: Option<UtcDateTime>)
        ensures
            earliest_present(pending_times(self.recipients@, TimeField::Expires), r),
    {
        earliest_pending_present(&self.recipients)
    }
}

/// The text of a status: its message, or `N/A` when scheduled.
pub open spec fn spec_status_message(s: Status) -> Seq<char> {
    match s {
        Status::Completed(m) => m@,
        Status::TemporaryFailure(m) => m@,
        Status::PermanentFailure(m) => m@,
        Status::Scheduled => "N/A"@,
    }
}

impl Status {
    pub fn unwrap_message(self) -> (r: String)
        ensures
            r@ == spec_status_message(self),
    {
        match self {
            Status::Completed(message) | Status::TemporaryFailure(message) | Status::PermanentFailure(
                message,
            ) => message,
            Status::Scheduled => String::from_str("N/A"),
        }
    }
}


/// What the queue list shows of a message.
#[derive(Debug, Clone, PartialEq, Eq)]
pub struct QueueSummary {
    /// Recipients delivered to.
    pub total_success: usize,
    /// Recipients scheduled or failed temporarily.
    pub total_pending: usize,
    /// Recipients failed permanently.
    pub total_failed: usize,
    /// The first recipient, and how many others there are.
    pub recipients: String,
    /// The distinct queues of the recipients, in order, joined with `, `.
    pub queues: String,
}

/// The number of recipients with a status of the given kind.
pub open spec fn count_status(rs: Seq<Recipient>, kind: spec_fn(Status) -> bool) -> nat {
    rs.filter(|r: Recipient| kind(r.status)).len()
}

/// `k` is the index of the first recipient with a non-empty address.
pub open spec fn is_first_addressed(rs: Seq<Recipient>, k: int) -> bool {
    0 <= k < rs.len() && rs[k].address@.len() > 0 && forall|j: int| 0 <= j < k ==> rs[j].address@.len() == 0
}

/// The first recipient with an address, followed by ` and N more` when N
/// recipients come after it; empty when no recipient has an address.
pub open spec fn spec_recipients_text(rs: Seq<Recipient>) -> Seq<char> {
    if exists|k: int| is_first_addressed(rs, k) {
        let k = choose|k: int| is_first_addressed(rs, k);
        let others = rs.len() - k - 1;
        if others > 0 {
            rs[k].address@ + " and "@ + dec(others as nat) + " more"@
        } else {
            rs[k].address@
        }
    } else {
        Seq::empty()
    }
}

/// The queue names of the recipients.
pub open spec fn queue_names(rs: Seq<Recipient>) -> Seq<Seq<char>> {
    rs.map_values(|r: Recipient| r.queue@)
}

/// `q` holds each queue name of the recipients once, in `String` order.
pub open spec fn is_queue_list(rs: Seq<Recipient>, q: Seq<Seq<char>>) -> bool {
    &&& sorted_seqs(q)
    &&& q.no_duplicates()
    &&& q.to_set() == queue_names(rs).to_set()
}

/// Counts recipients with a status of one kind.
fn count_kind(rs: &Vec<Recipient>, kind: u8) -> (n: usize)
    requires
        kind < 3,
    ensures
        n == count_status(rs@, status_kind(kind)),
{
    let ghost pred = |r: Recipient| status_kind(kind)(r.status);
    let mut n: usize = 0;
    let mut i: usize = 0;
    while i < rs.len()
        invariant
            i <= rs@.len(),
            kind < 3,
            pred == (|r: Recipient| status_kind(kind)(r.status)),
            n == rs@.take(i as int).filter(pred).len(),
            n <= i,
        decreases rs.len() - i,
    {
        assert(rs@.take(i + 1) =~= rs@.take(i as int).push(rs@[i as int]));
        proof {
            rs@.take(i as int).lemma_filter_push(rs@[i as int], pred);
        }
        let hit = match &rs[i].status {
            Status::Completed(_) => kind == 0,
            Status::Scheduled | Status::TemporaryFailure(_) => kind == 1,
            Status::PermanentFailure(_) => kind == 2,
        };
        if hit {
            n = n + 1;
        }
        i = i + 1;
    }
    assert(rs@.take(rs@.len() as int) =~= rs@);
    n
}

/// Status kinds: 0 delivered, 1 pending, 2 failed permanently.
pub open spec fn status_kind(kind: u8) -> spec_fn(Status) -> bool {
    |s: Status| match s {
        Status::Completed(_) => kind == 0,
        Status::Scheduled | Status::TemporaryFailure(_) => kind == 1,
        Status::PermanentFailure(_) => kind == 2,
    }
}

/// The summary the queue list shows of a message.
pub fn queue_summary(message: &Message) -> (s: QueueSummary)
    ensures
        s.total_success == count_status(message.recipients@, status_kind(0)),
        s.total_pending == count_status(message.recipients@, status_kind(1)),
        s.total_failed == count_status(message.recipients@, status_kind(2)),
        s.recipients@ == spec_recipients_text(message.recipients@),
        exists|q: Seq<Seq<char>>| is_queue_list(message.recipients@, q) && s.queues@ == join_seqs(q, ", "@),
{
    let rs = &message.recipients;
    let total_success = count_kind(rs, 0);
    let total_pending = count_kind(rs, 1);
    let total_failed = count_kind(rs, 2);

    // first recipient with an address, and how many recipients follow it
    let mut first: usize = 0;
    while first < rs.len() && rs[first].address.as_str().is_empty()
        invariant
            first <= rs@.len(),
            forall|j: int| 0 <= j < first ==> rs@[j].address@.len() == 0,
        decreases rs.len() - first,
    {
        first = first + 1;
    }
    let recipients = if first == rs.len() {
        assert(!exists|k: int| is_first_addressed(rs@, k));
        String::new()
    } else {
        assert(is_first_addressed(rs@, first as int));
        assert forall|k: int| is_first_addressed(rs@, k) implies k == first by {
            if k < first {
            } else if k > first {
                assert(rs@[first as int].address@.len() == 0);
            }
        }
        let others = rs.len() - first - 1;
        if others > 0 {
            let mut t = rs[first].address.clone();
            t.append(" and ");
            let digits = u64_to_string(others as u64);
            t.append(digits.as_str());
            t.append(" more");
            t
        } else {
            rs[first].address.clone()
        }
    };

    // distinct queue names
    let ghost names = queue_names(rs@);
    let mut queues: Vec<String> = Vec::new();
    let mut i: usize = 0;
    while i < rs.len()
        invariant
            i <= rs@.len(),
            names == queue_names(rs@),
            strs(queues@).no_duplicates(),
            strs(queues@).to_set() == names.take(i as int).to_set(),
        decreases rs.len() - i,
    {
        let ghost before = strs(queues@);
        assert(names.take(i + 1) =~= names.take(i as int).push(rs@[i as int].queue@));
        proof {
            names.take(i as int).lemma_push_to_set_commute(rs@[i as int].queue@);
        }
        if !vec_contains_str(&queues, &rs[i].queue) {
            queues.push(rs[i].queue.clone());
            proof {
                assert(strs(queues@) =~= before.push(rs@[i as int].queue@));
                before.lemma_push_to_set_commute(rs@[i as int].queue@);
                assert forall|a: int, b: int| 0 <= a < b < strs(queues@).len() implies strs(queues@)[a] != strs(
                    queues@,
                )[b] by {
                    if b == before.len() {
                        assert(before.contains(before[a]));
                    }
                }
            }
        } else {
            assert(names.take(i as int).to_set().insert(rs@[i as int].queue@) =~= names.take(i as int).to_set());
        }
        i = i + 1;
    }
    assert(names.take(rs@.len() as int) =~= names);
    let ghost unsorted = strs(queues@);
    let sorted = sort_strings(queues);
    proof {
        let q = strs(sorted@);
        unsorted.lemma_multiset_has_no_duplicates();
        assert forall|x: Seq<char>| q.to_multiset().contains(x) implies q.to_multiset().count(x) == 1 by {
            assert(unsorted.to_multiset().count(x) == 1);
        }
        q.lemma_multiset_has_no_duplicates_conv();
        assert forall|x: Seq<char>| q.to_set().contains(x) <==> unsorted.to_set().contains(x) by {
            vstd::seq_lib::to_multiset_contains(q, x);
            vstd::seq_lib::to_multiset_contains(unsorted, x);
        }
        assert(q.to_set() =~= unsorted.to_set());
        assert(is_queue_list(rs@, q));
    }
    let queues = join(&sorted, ", ");
    QueueSummary { total_success, total_pending, total_failed, recipients, queues }
}


// ----- message page ------------------------------------------------------------

/// How a message's priority is described.
pub open spec fn spec_priority_label(p: i16) -> Seq<char> {
    if p < 0 {
        "low"@
    } else if p > 0 {
        "high"@
    } else {
        "normal"@
    }
}

impl Message {
    pub fn priority_label(&self) -> (r: &'static str)
        ensures
            r@ == spec_priority_label(self.priority),
    {
        if self.priority < 0 {
            "low"
        } else if self.priority > 0 {
            "high"
        } else {
            "normal"
        }
    }
}

/// The header block of a message: its bytes up to the first empty line,
/// carriage returns dropped, the line feed that ends the last header line
/// kept. `acc` is what was kept so far.
pub open spec fn header_scan(bytes: Seq<u8>, acc: Seq<u8>) -> Seq<u8>
    decreases bytes.len(),
{
    if bytes.len() == 0 {
        acc
    } else if bytes[0] == 10 && acc.len() > 0 && acc.last() == 10 {
        acc
    } else if bytes[0] == 13 {
        header_scan(bytes.drop_first(), acc)
    } else {
        header_scan(bytes.drop_first(), acc.push(bytes[0]))
    }
}

/// The header block of a raw message.
pub fn headers_only(bytes: &Vec<u8>) -> (r: Vec<u8>)
    ensures
        r@ == header_scan(bytes@, Seq::empty()),
{
    let mut contents: Vec<u8> = Vec::new();
    let mut i: usize = 0;
    assert(bytes@.skip(0) =~= bytes@);
    assert(contents@ =~= Seq::<u8>::empty());
    while i < bytes.len()
        invariant
            i <= bytes@.len(),
            header_scan(bytes@.skip(i as int), contents@) == header_scan(bytes@, Seq::empty()),
        decreases bytes.len() - i,
    {
        let b = bytes[i];
        assert(bytes@.skip(i as int)[0] == b);
        assert(bytes@.skip(i as int).drop_first() =~= bytes@.skip(i + 1));
        if b == 10 && contents.len() > 0 && contents[contents.len() - 1] == 10 {
            return contents;
        }
        if b != 13 {
            contents.push(b);
        }
        i = i + 1;
    }
    assert(bytes@.skip(i as int) =~= Seq::<u8>::empty());
    contents
}

/// The text `String::from_utf8_lossy` makes of the bytes.
pub uninterp spec fn spec_utf8_lossy(bytes: Seq<u8>) -> Seq<char>;

/// `String::from_utf8_lossy(bytes).into_owned()`: the bytes decoded as
/// UTF-8, invalid sequences replaced; valid UTF-8 is decoded as it is.
#[verifier::external_body]
fn utf8_lossy(bytes: &Vec<u8>) -> (r: String)
    ensures
        r@ == spec_utf8_lossy(bytes@),
        valid_utf8(bytes@) ==> r@ == decode_utf8(bytes@),
{
    String::from_utf8_lossy(bytes).into_owned()
}

/// The text shown of a stored message: its header block only when
/// `headers` is set, else the whole message.
pub fn blob_text(bytes: Vec<u8>, headers: bool) -> (r: String)
    ensures
        r@ == spec_utf8_lossy(if headers { header_scan(bytes@, Seq::empty()) } else { bytes@ }),
{
    if headers {
        let h = headers_only(&bytes);
        utf8_lossy(&h)
    } else {
        utf8_lossy(&bytes)
    }
}

/// The server response and the details shown of a status: a message of the
/// form `code, Message: text` is split into both, any other is all details.
pub open spec fn spec_status_columns(s: Status) -> (Seq<char>, Seq<char>) {
    match spec_split_once(spec_status_message(s), ", Message: "@) {
        Some((code, message)) => (code, message),
        None => (Seq::empty(), spec_status_message(s)),
    }
}

/// How a status is shown in the recipient list.
pub open spec fn spec_display_status(s: Status) -> (u8, Seq<char>) {
    match s {
        Status::Completed(_) => (1, "Delivered"@),
        Status::TemporaryFailure(_) => (2, "Pending"@),
        Status::PermanentFailure(_) => (3, "Failed"@),
        Status::Scheduled => (2, "Scheduled"@),
    }
}

/// The kind (1 completed, 2 temporary failure, 3 permanent failure) and text of a status.
pub open spec fn status_shape(s: Status) -> (u8, Seq<char>) {
    match s {
        Status::Completed(m) => (1, m@),
        Status::TemporaryFailure(m) => (2, m@),
        Status::PermanentFailure(m) => (3, m@),
        Status::Scheduled => (0, Seq::empty()),
    }
}

impl Status {
    /// The server response and the details of the status.
    pub fn columns(&self) -> (r: (String, String))
        ensures
            (r.0@, r.1@) == spec_status_columns(*self),
    {
        let details = match self {
            Status::Completed(m) | Status::TemporaryFailure(m) | Status::PermanentFailure(m) => m.clone(),
            Status::Scheduled => String::from_str("N/A"),
        };
        match split_once(details.as_str(), ", Message: ") {
            Some((code, message)) => (code, message),
            None => (String::new(), details),
        }
    }

    /// The status as the recipient list shows it: delivered, pending,
    /// failed, or scheduled (shown as a pending one).
    pub fn display(&self) -> (r: Status)
        ensures
            status_shape(r) == spec_display_status(*self),
    {
        match self {
            Status::Completed(_) => Status::Completed(String::from_str("Delivered")),
            Status::TemporaryFailure(_) => Status::TemporaryFailure(String::from_str("Pending")),
            Status::PermanentFailure(_) => Status::PermanentFailure(String::from_str("Failed")),
            Status::Scheduled => Status::TemporaryFailure(String::from_str("Scheduled")),
        }
    }
}

/// Whether a recipient's next retry is shown: always unless the delivery
/// completed, and then only when the retry time has passed.
pub fn shows_retry(status: &Status, retry: UtcDateTime, now: UtcDateTime) -> (r: bool)
    ensures
        r == (!(*status is Completed) || before(retry, now)),
{
    !matches!(status, Status::Completed(_)) || retry.lt(&now)
}

/// The title of a tracing span of a message.
pub fn attempt_title(typ: &str) -> (r: &'static str)
    ensures
        r@ == (if is_prefix("delivery."@, typ@) { "Delivery Attempt"@ } else { "Message Received"@ }),
{
    if starts_with(typ, "delivery.") {
        "Delivery Attempt"
    } else {
        "Message Received"
    }
}

/// Which list rows are selected.
#[derive(Debug, Clone, PartialEq, Eq)]
pub enum ItemSelection {
    All,
    Selected(Vec<String>),
    Nothing,
}

/// The recipient filters a retry is sent with: the empty filter (every
/// recipient) when all are selected, else the selected addresses; `None`
/// when nothing is selected.
pub fn retry_filters(selection: ItemSelection) -> (r: Option<Vec<String>>)
    ensures
        selection is All ==> (r matches Some(v) && strs(v@) == seq![Seq::<char>::empty()]),
        selection matches ItemSelection::Selected(sel) ==> (r matches Some(v) && v@ == sel@),
        selection is Nothing ==> r is None,
{
    match selection {
        ItemSelection::All => {
            let v = vec![String::new()];
            assert(strs(v@) =~= seq![Seq::<char>::empty()]);
            Some(v)
        },
        ItemSelection::Selected(sel) => Some(sel),
        ItemSelection::Nothing => None,
    }
}

/// The recipient filters a cancellation is sent with: the empty filter when
/// all recipients are selected (by selecting all or each of them), else the
/// selected addresses; `None` when nothing is selected.
pub fn cancel_filters(selection: ItemSelection, num_recipients: usize) -> (r: Option<Vec<String>>)
    ensures
        (selection is All || (selection matches ItemSelection::Selected(sel) && sel@.len() == num_recipients)) ==> (
        r matches Some(v) && strs(v@) == seq![Seq::<char>::empty()]),
        selection matches ItemSelection::Selected(sel) ==> (sel@.len() != num_recipients ==> (r matches Some(v)
            && v@ == sel@)),
        selection is Nothing ==> r is None,
{
    match selection {
        ItemSelection::All => {
            let v = vec![String::new()];
            assert(strs(v@) =~= seq![Seq::<char>::empty()]);
            Some(v)
        },
        ItemSelection::Selected(sel) => if sel.len() == num_recipients {
            let v = vec![String::new()];
            assert(strs(v@) =~= seq![Seq::<char>::empty()]);
            Some(v)
        } else {
            Some(sel)
        },
        ItemSelection::Nothing => None,
    }
}

/// A toolbar label with the number of selected rows, when there are any.
pub fn count_label(label: &str, selected: u64) -> (r: String)
    ensures
        r@ == (if selected > 0 { label@ + " ("@ + dec(selected as nat) + ")"@ } else { label@ }),
{
    if selected > 0 {
        let mut r = String::from_str(label);
        r.append(" (");
        let n = u64_to_string(selected);
        r.append(n.as_str());
        r.append(")");
        r
    } else {
        String::from_str(label)
    }
}


// ----- bulk queue actions ----------------------------------------------------

/// How the server answered a request about one queued message.
#[derive(Debug, Clone, Copy, PartialEq, Eq, Structural)]
pub enum RequestOutcome {
    /// The message was removed or rescheduled.
    Applied,
    /// The message was not there (or nothing was done).
    Skipped,
    /// The request failed; the remaining messages are not tried.
    Failed,
}

/// The next step of a bulk action after one answer: the new count of
/// messages acted upon, or `None` when the action stops on an error.
pub fn bulk_step(done: usize, outcome: RequestOutcome) -> (r: Option<usize>)
    requires
        done < usize::MAX,
    ensures
        outcome is Applied ==> r == Some((done + 1) as usize),
        outcome is Skipped ==> r == Some(done),
        outcome is Failed ==> r is None,
{
    match outcome {
        RequestOutcome::Applied => Some(done + 1),
        RequestOutcome::Skipped => Some(done),
        RequestOutcome::Failed => None,
    }
}

/// A server's reply to a request about one item: an answer (whether the
/// server acted on the item), "not found", or any other error.
#[derive(Debug, Clone, Copy, PartialEq, Eq, Structural)]
pub enum Reply {
    Answered(bool),
    NotFound,
    Failed,
}

/// How a reply counts in a bulk action: a `true` answer applied the
/// request, a `false` answer or "not found" skips the item, any other error
/// stops the action.
pub fn reply_outcome(reply: Reply) -> (r: RequestOutcome)
    ensures
        r == match reply {
            Reply::Answered(true) => RequestOutcome::Applied,
            Reply::Answered(false) | Reply::NotFound => RequestOutcome::Skipped,
            Reply::Failed => RequestOutcome::Failed,
        },
{
    match reply {
        Reply::Answered(true) => RequestOutcome::Applied,
        Reply::Answered(false) | Reply::NotFound => RequestOutcome::Skipped,
        Reply::Failed => RequestOutcome::Failed,
    }
}

/// The end of a bulk action whose requests were answered with `outcomes`,
/// in order: none when one of them failed (the items after it are not
/// requested and no success is reported), else how many were applied.
pub open spec fn spec_bulk_total(outcomes: Seq<RequestOutcome>) -> Option<nat>
    decreases outcomes.len(),
{
    if outcomes.len() == 0 {
        Some(0)
    } else {
        match spec_bulk_total(outcomes.drop_last()) {
            Some(n) => match outcomes.last() {
                RequestOutcome::Applied => Some(n + 1),
                RequestOutcome::Skipped => Some(n),
                RequestOutcome::Failed => None,
            },
            None => None,
        }
    }
}

/// A bulk action that has failed stays failed whatever else is answered.
proof fn lemma_bulk_failed_prefix(outcomes: Seq<RequestOutcome>, i: int)
    requires
        0 <= i <= outcomes.len(),
        spec_bulk_total(outcomes.take(i)) is None,
    ensures
        spec_bulk_total(outcomes) is None,
    decreases outcomes.len() - i,
{
    if i < outcomes.len() {
        assert(outcomes.take(i + 1).drop_last() =~= outcomes.take(i));
        lemma_bulk_failed_prefix(outcomes, i + 1);
    } else {
        assert(outcomes.take(i) =~= outcomes);
    }
}

/// The end of a bulk action (see [`spec_bulk_total`]).
pub fn bulk_total(outcomes: &Vec<RequestOutcome>) -> (r: Option<usize>)
    ensures
        match r {
            Some(n) => spec_bulk_total(outcomes@) == Some(n as nat),
            None => spec_bulk_total(outcomes@) is None,
        },
{
    let mut done: usize = 0;
    let mut i: usize = 0;
    proof {
        assert(outcomes@.take(0) =~= Seq::<RequestOutcome>::empty());
    }
    while i < outcomes.len()
        invariant
            i <= outcomes@.len(),
            done <= i,
            spec_bulk_total(outcomes@.take(i as int)) == Some(done as nat),
        decreases outcomes.len() - i,
    {
        assert(outcomes@.take(i + 1).drop_last() =~= outcomes@.take(i as int));
        assert(outcomes@.take(i + 1).last() == outcomes@[i as int]);
        match bulk_step(done, outcomes[i]) {
            Some(d) => {
                done = d;
            },
            None => {
                proof {
                    lemma_bulk_failed_prefix(outcomes@, i + 1);
                }
                return None;
            },
        }
        i = i + 1;
    }
    assert(outcomes@.take(outcomes@.len() as int) =~= outcomes@);
    Some(done)
}

/// The confirmation shown on a message's page once every selected
/// recipient was cancelled (`true`) or retried.
pub fn recipients_done_message(cancel: bool) -> (r: &'static str)
    ensures
        cancel ==> r@ == "Successfully requested cancellation."@,
        !cancel ==> r@ == "Successfully requested immediate delivery."@,
{
    if cancel {
        "Successfully requested cancellation."
    } else {
        "Successfully requested immediate delivery."
    }
}

/// The message shown after removing messages from the queue; none when
/// nothing was removed.
pub fn removed_message(total: usize) -> (r: Option<String>)
    ensures
        total == 0 ==> r is None,
        total > 0 ==> (r matches Some(t) && t@ == "Removed "@ + spec_maybe_plural(
            total as nat,
            "message"@,
            "messages"@,
        ) + " from queue."@),
{
    if total > 0 {
        let mut t = String::from_str("Removed ");
        let n = maybe_plural(total, "message", "messages");
        t.append(n.as_str());
        t.append(" from queue.");
        Some(t)
    } else {
        None
    }
}

/// The message shown after rescheduling messages; none when nothing was
/// rescheduled.
pub fn rescheduled_message(total: usize) -> (r: Option<String>)
    ensures
        total == 0 ==> r is None,
        total > 0 ==> (r matches Some(t) && t@ == "Successfully requested immediate delivery of "@
            + spec_maybe_plural(total as nat, "message"@, "messages"@) + "."@),
{
    if total > 0 {
        let mut t = String::from_str("Successfully requested immediate delivery of ");
        let n = maybe_plural(total, "message", "messages");
        t.append(n.as_str());
        t.append(".");
        Some(t)
    } else {
        None
    }
}

/// The request path and the confirmation of starting (`true`) or pausing
/// queue processing.
pub fn queue_status_action(start: bool) -> (r: (&'static str, &'static str))
    ensures
        start ==> r.0@ == "/api/queue/status/start"@ && r.1@ == "Queue processing has been resumed."@,
        !start ==> r.0@ == "/api/queue/status/stop"@ && r.1@ == "Queue processing has been paused."@,
{
    if start {
        ("/api/queue/status/start", "Queue processing has been resumed.")
    } else {
        ("/api/queue/status/stop", "Queue processing has been paused.")
    }
}

impl Status {
    /// Colour of the badge that shows a delivered, pending or failed status
    /// (a scheduled one is never shown as a badge).
    pub fn badge_color(&self) -> (r: Color)
        requires
            !(*self is Scheduled),
        ensures
            *self is Completed ==> r == Color::Green,
            *self is TemporaryFailure ==> r == Color::Blue,
            *self is PermanentFailure ==> r == Color::Red,
    {
        match self {
            Status::Completed(_) => Color::Green,
            Status::TemporaryFailure(_) => Color::Blue,
            _ => Color::Red,
        }
    }
}


/// The bytes hold no carriage return and no empty line (two line feeds in a row).
pub open spec fn no_blank_line(b: Seq<u8>) -> bool {
    &&& forall|i: int| 0 <= i < b.len() ==> #[trigger] b[i] != 13
    &&& forall|i: int| 0 <= i < b.len() - 1 ==> !(#[trigger] b[i] == 10 && b[i + 1] == 10)
}

/// Header block law: what is kept of a message's header block holds no
/// carriage return and no empty line, whatever the message.
pub proof fn lemma_header_block_clean(bytes: Seq<u8>)
    ensures
        no_blank_line(header_scan(bytes, Seq::empty())),
{
    lemma_header_scan_clean(bytes, Seq::empty());
}

proof fn lemma_header_scan_clean(bytes: Seq<u8>, acc: Seq<u8>)
    requires
        no_blank_line(acc),
    ensures
        no_blank_line(header_scan(bytes, acc)),
    decreases bytes.len(),
{
    if bytes.len() == 0 {
    } else if bytes[0] == 10 && acc.len() > 0 && acc.last() == 10 {
    } else if bytes[0] == 13 {
        lemma_header_scan_clean(bytes.drop_first(), acc);
    } else {
        let next = acc.push(bytes[0]);
        assert(no_blank_line(next)) by {
            assert forall|i: int| 0 <= i < next.len() - 1 implies !(#[trigger] next[i] == 10 && next[i + 1] == 10) by {
                if i == next.len() - 2 {
                    assert(next[i] == acc.last());
                    assert(next[i + 1] == bytes[0]);
                } else {
                    assert(next[i] == acc[i]);
                    assert(next[i + 1] == acc[i + 1]);
                }
            }
            assert forall|i: int| 0 <= i < next.len() implies #[trigger] next[i] != 13 by {
                if i < acc.len() {
                    assert(next[i] == acc[i]);
                }
            }
        }
        lemma_header_scan_clean(bytes.drop_first(), next);
    }
}

} // verus!
