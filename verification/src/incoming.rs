//! Reports received from other servers (DMARC, TLS and ARF) and the summary
//! the report list shows of each.
use vstd::prelude::*;

use crate::directory::strs;
use crate::reports::{ActionDisposition, Feedback, FeedbackType, Report, TlsReport};
use crate::text::{concat, dec, parse_i64, spec_parse_i64, spec_split_once, split_once, str_eq, u64_to_string};
use crate::{maybe_plural, spec_maybe_plural};
use crate::time::{from_timestamp, now, spec_chrono_valid, UtcDateTime};

verus! {

/// Kind of a received report.
#[derive(Debug, Clone, Copy, PartialEq, Eq, Structural)]
pub enum ReportType {
    Dmarc,
    Tls,
    Arf,
}

impl ReportType {
    /// Identifier used in requests.
    pub open spec fn spec_as_str(self) -> Seq<char> {
        match self {
            ReportType::Dmarc => "dmarc"@,
            ReportType::Tls => "tls"@,
            ReportType::Arf => "arf"@,
        }
    }

    pub fn as_str(&self) -> (r: &'static str)
        ensures
            r@ == self.spec_as_str(),
    {
        match self {
            ReportType::Dmarc => "dmarc",
            ReportType::Tls => "tls",
            ReportType::Arf => "arf",
        }
    }
}

/// A received report with the message that carried it.
#[derive(Debug, Clone, PartialEq, Eq)]
pub struct IncomingReport<T> {
    pub from: String,
    pub to: Vec<String>,
    pub subject: String,
    pub report: T,
}

/// What the report list shows of a received report.
#[derive(Debug, Clone, PartialEq, Eq)]
pub enum IncomingReportSummary {
    Dmarc {
        id: String,
        received: UtcDateTime,
        range_from: UtcDateTime,
        range_to: UtcDateTime,
        from: String,
        domains: Vec<String>,
        total_passes: u32,
        total_rejects: u32,
        total_quarantined: u32,
    },
    Tls {
        id: String,
        received: UtcDateTime,
        range_from: UtcDateTime,
        range_to: UtcDateTime,
        from: String,
        domains: Vec<String>,
        total_success: u32,
        total_failures: u32,
    },
    Arf {
        id: String,
        received: UtcDateTime,
        arrival_date: Option<UtcDateTime>,
        typ: FeedbackType,
        from: String,
        domains: Vec<String>,
        total_incidents: u32,
    },
}

impl IncomingReportSummary {
    /// The report's identifier.
    pub open spec fn spec_id(self) -> Seq<char> {
        match self {
            IncomingReportSummary::Dmarc { id, .. } => id@,
            IncomingReportSummary::Tls { id, .. } => id@,
            IncomingReportSummary::Arf { id, .. } => id@,
        }
    }

    pub fn id(&self) -> (r: &str)
        ensures
            r@ == self.spec_id(),
    {
        match self {
            IncomingReportSummary::Dmarc { id, .. } => id.as_str(),
            IncomingReportSummary::Tls { id, .. } => id.as_str(),
            IncomingReportSummary::Arf { id, .. } => id.as_str(),
        }
    }
}

impl<T> IncomingReport<T> {
    /// The report, and the labelled fields of its message: sender, the
    /// recipients joined with `, `, and subject.
    pub fn unwrap_report(self) -> (r: (T, Vec<(String, String)>))
        ensures
            r.0 == self.report,
            r.1@.len() == 3,
            r.1@[0].0@ == "Received From"@ && r.1@[0].1@ == self.from@,
            r.1@[1].0@ == "Recipients"@ && r.1@[1].1@ == crate::text::join_seqs(strs(self.to@), ", "@),
            r.1@[2].0@ == "Subject"@ && r.1@[2].1@ == self.subject@,
    {
        let recipients = crate::text::join(&self.to, ", ");
        let mut fields: Vec<(String, String)> = Vec::new();
        fields.push((String::from_str("Received From"), self.from));
        fields.push((String::from_str("Recipients"), recipients));
        fields.push((String::from_str("Subject"), self.subject));
        (self.report, fields)
    }
}

/// The seconds a report identifier `<prefix>_<seconds>` encodes, 0 when it
/// encodes none.
pub open spec fn spec_report_seconds(id: Seq<char>) -> i64 {
    match spec_split_once(id, seq!['_']) {
        Some((_, rest)) => match spec_parse_i64(rest) {
            Some(n) => n,
            None => 0,
        },
        None => 0,
    }
}

/// `t` is when a report with identifier `id` was received: the instant its
/// seconds denote, or (when chrono cannot represent it) the current time.
pub open spec fn is_received_at(id: Seq<char>, t: UtcDateTime) -> bool {
    let secs = spec_report_seconds(id);
    if spec_chrono_valid(secs, 0) {
        t == UtcDateTime { secs, nanos: 0 }
    } else {
        spec_chrono_valid(t.secs, t.nanos)
    }
}

/// When a report was received, from its identifier.
pub fn parse_report_date(id: &str) -> (t: UtcDateTime)
    ensures
        is_received_at(id@, t),
{
    proof {
        reveal_strlit("_");
    }
    assert("_"@ =~= seq!['_']);
    let secs = match split_once(id, "_") {
        Some((_, rest)) => match parse_i64(rest.as_str()) {
            Some(n) => n,
            None => 0,
        },
        None => 0,
    };
    match from_timestamp(secs) {
        Some(t) => t,
        None => now(),
    }
}

/// `t` is the instant of `secs` (cast to `i64`), or when chrono cannot
/// represent it, the current time.
pub open spec fn is_instant_or_now(secs: u64, t: UtcDateTime) -> bool {
    if spec_chrono_valid(secs as i64, 0) {
        t == UtcDateTime { secs: secs as i64, nanos: 0 }
    } else {
        spec_chrono_valid(t.secs, t.nanos)
    }
}

/// The instant of a number of seconds, or the current time.
fn instant_or_now(secs: u64) -> (t: UtcDateTime)
    ensures
        is_instant_or_now(secs, t),
{
    match from_timestamp(secs as i64) {
        Some(t) => t,
        None => now(),
    }
}

/// Counts DMARC records by applied handling: passed (pass, none or
/// unspecified), quarantined, rejected.
pub open spec fn disposition_class(d: ActionDisposition) -> u8 {
    match d {
        ActionDisposition::Quarantine => 1,
        ActionDisposition::Reject => 2,
        _ => 0,
    }
}

/// The number of records whose handling is of class `c`.
pub open spec fn count_class(records: Seq<crate::reports::Record>, c: u8) -> nat {
    records.filter(|r: crate::reports::Record| disposition_class(r.row.policy_evaluated.disposition) == c).len()
}

/// The records whose applied handling is `d`.
pub open spec fn handled_as(records: Seq<crate::reports::Record>, d: ActionDisposition) -> nat {
    records.filter(|r: crate::reports::Record| r.row.policy_evaluated.disposition == d).len()
}

/// DMARC summary law: the quarantined count is the number of records
/// quarantined, the rejected count the number rejected, and passes,
/// quarantines and rejections together account for every record once.
pub proof fn lemma_dmarc_classes(records: Seq<crate::reports::Record>)
    ensures
        count_class(records, 1) == handled_as(records, ActionDisposition::Quarantine),
        count_class(records, 2) == handled_as(records, ActionDisposition::Reject),
        count_class(records, 0) + count_class(records, 1) + count_class(records, 2) == records.len(),
    decreases records.len(),
{
    let p0 = |r: crate::reports::Record| disposition_class(r.row.policy_evaluated.disposition) == 0;
    let p1 = |r: crate::reports::Record| disposition_class(r.row.policy_evaluated.disposition) == 1;
    let p2 = |r: crate::reports::Record| disposition_class(r.row.policy_evaluated.disposition) == 2;
    let q = |r: crate::reports::Record| r.row.policy_evaluated.disposition == ActionDisposition::Quarantine;
    let j = |r: crate::reports::Record| r.row.policy_evaluated.disposition == ActionDisposition::Reject;
    assert(p1 =~= q);
    assert(p2 =~= j);
    if records.len() > 0 {
        let rest = records.drop_last();
        let x = records.last();
        lemma_dmarc_classes(rest);
        assert(records =~= rest.push(x));
        rest.lemma_filter_push(x, p0);
        rest.lemma_filter_push(x, p1);
        rest.lemma_filter_push(x, p2);
    } else {
        assert(records.filter(p0) =~= records);
        assert(records.filter(p1) =~= records);
        assert(records.filter(p2) =~= records);
    }
}

/// The total of the successful (or, with `failures`, failed) sessions of the policies.
pub open spec fn session_total(policies: Seq<crate::reports::Policy>, failures: bool) -> nat
    decreases policies.len(),
{
    if policies.len() == 0 {
        0
    } else {
        session_total(policies.drop_last(), failures) + if failures {
            policies.last().summary.total_failure as nat
        } else {
            policies.last().summary.total_success as nat
        }
    }
}

/// The session totals only grow along the policies.
proof fn lemma_session_total_prefix(policies: Seq<crate::reports::Policy>, k: int, failures: bool)
    requires
        0 <= k <= policies.len(),
    ensures
        session_total(policies.take(k), failures) <= session_total(policies, failures),
    decreases policies.len() - k,
{
    if k < policies.len() {
        lemma_session_total_prefix(policies, k + 1, failures);
        assert(policies.take(k + 1).drop_last() =~= policies.take(k));
    } else {
        assert(policies.take(k) =~= policies);
    }
}

impl IncomingReportSummary {
    /// The summary of a DMARC report: records counted by handling, the
    /// reported period (the current time for a bound chrono cannot
    /// represent), the sender and the policy's domain.
    pub fn dmarc(id: String, report: IncomingReport<Report>) -> (s: Self)
        requires
            report.report.record@.len() <= u32::MAX,
        ensures
            s matches IncomingReportSummary::Dmarc {
                id: sid,
                received,
                range_from,
                range_to,
                from,
                domains,
                total_passes,
                total_rejects,
                total_quarantined,
            } && sid@ == id@ && is_received_at(id@, received) && is_instant_or_now(
                report.report.report_metadata.date_range.begin,
                range_from,
            ) && is_instant_or_now(report.report.report_metadata.date_range.end, range_to) && from@
                == report.from@ && strs(domains@) == seq![report.report.policy_published.domain@] && total_passes
                == count_class(report.report.record@, 0) && total_quarantined == count_class(
                report.report.record@,
                1,
            ) && total_rejects == count_class(report.report.record@, 2),
    {
        let records = &report.report.record;
        let ghost p0 = |r: crate::reports::Record| disposition_class(r.row.policy_evaluated.disposition) == 0;
        let ghost p1 = |r: crate::reports::Record| disposition_class(r.row.policy_evaluated.disposition) == 1;
        let ghost p2 = |r: crate::reports::Record| disposition_class(r.row.policy_evaluated.disposition) == 2;
        let mut total_passes: u32 = 0;
        let mut total_quarantined: u32 = 0;
        let mut total_rejects: u32 = 0;
        let mut i: usize = 0;
        while i < records.len()
            invariant
                i <= records@.len(),
                records@.len() <= u32::MAX,
                p0 == (|r: crate::reports::Record| disposition_class(r.row.policy_evaluated.disposition) == 0),
                p1 == (|r: crate::reports::Record| disposition_class(r.row.policy_evaluated.disposition) == 1),
                p2 == (|r: crate::reports::Record| disposition_class(r.row.policy_evaluated.disposition) == 2),
                total_passes == records@.take(i as int).filter(p0).len(),
                total_quarantined == records@.take(i as int).filter(p1).len(),
                total_rejects == records@.take(i as int).filter(p2).len(),
                total_passes + total_quarantined + total_rejects == i,
            decreases records.len() - i,
        {
            let ghost prefix = records@.take(i as int);
            assert(records@.take(i + 1) =~= prefix.push(records@[i as int]));
            proof {
                prefix.lemma_filter_push(records@[i as int], p0);
                prefix.lemma_filter_push(records@[i as int], p1);
                prefix.lemma_filter_push(records@[i as int], p2);
            }
            match records[i].row.policy_evaluated.disposition {
                ActionDisposition::Pass | ActionDisposition::NoAction | ActionDisposition::Unspecified => {
                    total_passes = total_passes + 1
                },
                ActionDisposition::Quarantine => total_quarantined = total_quarantined + 1,
                ActionDisposition::Reject => total_rejects = total_rejects + 1,
            }
            i = i + 1;
        }
        assert(records@.take(records@.len() as int) =~= records@);
        let received = parse_report_date(id.as_str());
        let range_from = instant_or_now(report.report.report_metadata.date_range.begin);
        let range_to = instant_or_now(report.report.report_metadata.date_range.end);
        let mut domains: Vec<String> = Vec::new();
        domains.push(report.report.policy_published.domain);
        assert(strs(domains@) =~= seq![report.report.policy_published.domain@]);
        IncomingReportSummary::Dmarc {
            received,
            range_from,
            range_to,
            from: report.from,
            domains,
            id,
            total_passes,
            total_rejects,
            total_quarantined,
        }
    }

    /// The summary of a TLS report: sessions totalled over its policies, its
    /// period, the sender and the policies' domains.
    pub fn tls(id: String, report: IncomingReport<TlsReport>) -> (s: Self)
        requires
            session_total(report.report.policies@, false) <= u32::MAX,
            session_total(report.report.policies@, true) <= u32::MAX,
        ensures
            s matches IncomingReportSummary::Tls {
                id: sid,
                received,
                range_from,
                range_to,
                from,
                domains,
                total_success,
                total_failures,
            } && sid@ == id@ && is_received_at(id@, received) && range_from
                == report.report.date_range.start_datetime && range_to == report.report.date_range.end_datetime
                && from@ == report.from@ && strs(domains@) == report.report.policies@.map_values(
                |p: crate::reports::Policy| p.policy.policy_domain@,
            ) && total_success == session_total(report.report.policies@, false) && total_failures
                == session_total(report.report.policies@, true),
    {
        let policies = &report.report.policies;
        let mut total_success: u32 = 0;
        let mut total_failures: u32 = 0;
        let mut domains: Vec<String> = Vec::new();
        let mut i: usize = 0;
        while i < policies.len()
            invariant
                i <= policies@.len(),
                session_total(policies@, false) <= u32::MAX,
                session_total(policies@, true) <= u32::MAX,
                total_success == session_total(policies@.take(i as int), false),
                total_failures == session_total(policies@.take(i as int), true),
                strs(domains@) == policies@.take(i as int).map_values(
                    |p: crate::reports::Policy| p.policy.policy_domain@,
                ),
            decreases policies.len() - i,
        {
            assert(policies@.take(i + 1).drop_last() =~= policies@.take(i as int));
            proof {
                lemma_session_total_prefix(policies@, i + 1, false);
                lemma_session_total_prefix(policies@, i + 1, true);
            }
            total_success = total_success + policies[i].summary.total_success;
            total_failures = total_failures + policies[i].summary.total_failure;
            let ghost before = strs(domains@);
            domains.push(policies[i].policy.policy_domain.clone());
            assert(strs(domains@) =~= before.push(policies@[i as int].policy.policy_domain@));
            assert(policies@.take(i + 1).map_values(|p: crate::reports::Policy| p.policy.policy_domain@)
                =~= policies@.take(i as int).map_values(|p: crate::reports::Policy| p.policy.policy_domain@).push(
                policies@[i as int].policy.policy_domain@,
            ));
            i = i + 1;
        }
        assert(policies@.take(policies@.len() as int) =~= policies@);
        let received = parse_report_date(id.as_str());
        IncomingReportSummary::Tls {
            received,
            id,
            range_from: report.report.date_range.start_datetime,
            range_to: report.report.date_range.end_datetime,
            from: report.from,
            domains,
            total_success,
            total_failures,
        }
    }

    /// The summary of an ARF report: its arrival time (when chrono can
    /// represent it), kind, sender, reported domains and at least one incident.
    pub fn arf(id: String, report: IncomingReport<Feedback>) -> (s: Self)
        ensures
            s matches IncomingReportSummary::Arf {
                id: sid,
                received,
                arrival_date,
                typ,
                from,
                domains,
                total_incidents,
            } && sid@ == id@ && is_received_at(id@, received) && arrival_date == match report.report.arrival_date {
                Some(d) => if spec_chrono_valid(d, 0) {
                    Some(UtcDateTime { secs: d, nanos: 0 })
                } else {
                    None
                },
                None => None,
            } && typ == report.report.feedback_type && from@ == report.from@ && domains@
                == report.report.reported_domain@ && total_incidents == if report.report.incidents > 1 {
                report.report.incidents
            } else {
                1
            },
    {
        let received = parse_report_date(id.as_str());
        let arrival_date = match report.report.arrival_date {
            Some(date) => from_timestamp(date),
            None => None,
        };
        let total_incidents = if report.report.incidents > 1 { report.report.incidents } else { 1 };
        IncomingReportSummary::Arf {
            received,
            from: report.from,
            domains: report.report.reported_domain,
            id,
            arrival_date,
            typ: report.report.feedback_type,
            total_incidents,
        }
    }
}


// ----- report list ----------------------------------------------------------------

impl ReportType {
    /// The kind of report a list page shows: DMARC unless `tls` or `arf`.
    pub fn from_param(object: Option<&str>) -> (r: ReportType)
        ensures
            (match object {
                Some(o) => o@ == "tls"@,
                None => false,
            }) ==> r == ReportType::Tls,
            (match object {
                Some(o) => o@ == "arf"@,
                None => false,
            }) ==> r == ReportType::Arf,
            !(match object {
                Some(o) => o@ == "tls"@ || o@ == "arf"@,
                None => false,
            }) ==> r == ReportType::Dmarc,
    {
        proof {
            reveal_strlit("tls");
            reveal_strlit("arf");
            assert("tls"@[0] != "arf"@[0]);
        }
        match object {
            Some(o) => if str_eq(o, "tls") {
                ReportType::Tls
            } else if str_eq(o, "arf") {
                ReportType::Arf
            } else {
                ReportType::Dmarc
            },
            None => ReportType::Dmarc,
        }
    }

    /// Title of the list of reports of this kind.
    pub fn title(&self) -> (r: &'static str)
        ensures
            r@ == (match *self {
                ReportType::Dmarc => "DMARC Aggregate Reports"@,
                ReportType::Tls => "TLS Reports"@,
                ReportType::Arf => "Failure Reports"@,
            }),
    {
        match self {
            ReportType::Dmarc => "DMARC Aggregate Reports",
            ReportType::Tls => "TLS Reports",
            ReportType::Arf => "Failure Reports",
        }
    }

    /// Subtitle of the list of reports of this kind.
    pub fn subtitle(&self) -> (r: &'static str)
        ensures
            r@ == (match *self {
                ReportType::Dmarc => "View received DMARC aggregate reports"@,
                ReportType::Tls => "View received TLS aggregate reports"@,
                ReportType::Arf => "View received abuse and authentication failure reports"@,
            }),
    {
        match self {
            ReportType::Dmarc => "View received DMARC aggregate reports",
            ReportType::Tls => "View received TLS aggregate reports",
            ReportType::Arf => "View received abuse and authentication failure reports",
        }
    }

    /// The address of a report of this kind.
    pub fn report_url(&self, id: &str) -> (r: String)
        ensures
            r@ == "/manage/reports/"@ + self.spec_as_str() + "/"@ + id@,
    {
        let mut r = concat("/manage/reports/", self.as_str());
        r.append("/");
        r.append(id);
        r
    }
}

/// The domains column of a report row: the first domain, or the first
/// "and others" with the number of domains beside it.
pub open spec fn spec_domains_column(domains: Seq<Seq<char>>) -> (Seq<char>, Option<Seq<char>>) {
    if domains.len() > 1 {
        (domains[0] + " and others"@, Some(dec(domains.len())))
    } else if domains.len() == 1 {
        (domains[0], None)
    } else {
        (Seq::empty(), None)
    }
}

pub fn domains_column(domains: &Vec<String>) -> (r: (String, Option<String>))
    ensures
        (r.0@, match r.1 {
            Some(n) => Some(n@),
            None => None,
        }) == spec_domains_column(strs(domains@)),
{
    if domains.len() > 1 {
        (concat(domains[0].as_str(), " and others"), Some(u64_to_string(domains.len() as u64)))
    } else if domains.len() == 1 {
        (domains[0].clone(), None)
    } else {
        (String::new(), None)
    }
}

/// The message shown after deleting reports; none when nothing was deleted.
pub fn removed_reports_message(total: usize) -> (r: Option<String>)
    ensures
        total == 0 ==> r is None,
        total > 0 ==> (r matches Some(t) && t@ == "Removed "@ + spec_maybe_plural(total as nat, "report"@, "reports"@)
            + "."@),
{
    if total > 0 {
        let mut t = String::from_str("Removed ");
        let n = maybe_plural(total, "report", "reports");
        t.append(n.as_str());
        t.append(".");
        Some(t)
    } else {
        None
    }
}

} // verus!
