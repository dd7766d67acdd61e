use webadmin::incoming::{
    domains_column, parse_report_date, removed_reports_message, IncomingReport, IncomingReportSummary, ReportType,
};
use webadmin::listing::page_indices;
use webadmin::reports::{queued_report_ids, removed_queued_reports_message};
use webadmin::reports::{
    shown_extras, ActionDisposition, AggregateReport, AggregateReportId, AggregateReportType, DKIMAuthResult,
    DkimResult, FailureDetails, Policy, PolicyDetails, PolicyType, Record, Report, ReportUri, SpfResult, Summary,
    TlsDateRange, TlsReport, URI,
};
use webadmin::time::UtcDateTime;
use webadmin::{Color, Icon};

fn at(secs: i64) -> UtcDateTime {
    UtcDateTime { secs, nanos: 0 }
}

fn record(from: &str, disposition: ActionDisposition) -> Record {
    let mut r = Record::default();
    r.identifiers.header_from = from.to_string();
    r.identifiers.envelope_from = from.to_string();
    r.row.policy_evaluated.disposition = disposition;
    r
}

fn dmarc_report(records: Vec<Record>) -> Report {
    let mut report = Report::default();
    report.report_metadata.org_name = "google.com".to_string();
    report.report_metadata.date_range.begin = 1_700_000_000;
    report.report_metadata.date_range.end = 1_700_086_400;
    report.policy_published.domain = "example.org".to_string();
    report.record = records;
    report
}

fn tls_policy(domain: &str, success: u32, failure: u32, failures: Vec<FailureDetails>) -> Policy {
    Policy {
        policy: PolicyDetails {
            policy_type: PolicyType::Sts,
            policy_string: vec!["version: STSv1".to_string()],
            policy_domain: domain.to_string(),
            mx_host: vec!["mx.example.org".to_string()],
        },
        summary: Summary { total_success: success, total_failure: failure },
        failure_details: failures,
    }
}

#[test]
fn enum_labels() {
    assert_eq!(ActionDisposition::Quarantine.text(), "Quarantine");
    assert_eq!(DkimResult::NoResult.text(), "None");
    assert_eq!(SpfResult::SoftFail.text(), "SoftFail");
    assert_eq!(ReportUri::Mail("a@x.org".to_string()).text(), "mailto:a@x.org");
    assert_eq!(ReportUri::Http("https://x.org".to_string()).text(), "https://x.org");
}

#[test]
fn badges() {
    assert_eq!(ActionDisposition::Reject.badge(), (Color::Red, Icon::Cancel));
    assert_eq!(ActionDisposition::Unspecified.badge(), (Color::Blue, Icon::ArrowRightCircle));
    assert_eq!(DkimResult::TempError.badge(), (Color::Yellow, Icon::Clock));
    assert_eq!(SpfResult::SoftFail.badge(), (Color::Red, Icon::AlertTriangle));
    assert_eq!(PolicyType::Tlsa.color(), Color::Green);
    assert_eq!(PolicyType::NoPolicyFound.color(), Color::Red);
}

#[test]
fn record_search() {
    let mut r = record("sender@example.org", ActionDisposition::Pass);
    r.auth_results.dkim.push(DKIMAuthResult {
        domain: "example.org".to_string(),
        selector: "s2024".to_string(),
        result: DkimResult::Pass,
        human_result: None,
    });
    r.row.source_ip = Some("192.0.2.1".to_string());
    assert!(r.contains_string(""));
    assert!(r.contains_string("s2024"));
    assert!(r.contains_string("192.0.2"));
    assert!(!r.contains_string("nothing"));
}

#[test]
fn dmarc_totals_and_pages() {
    let mut records = vec![];
    for i in 0..25 {
        let d = match i % 3 {
            0 => ActionDisposition::Pass,
            1 => ActionDisposition::Reject,
            _ => ActionDisposition::NoAction,
        };
        records.push(record(&format!("user{i}@example.org"), d));
    }
    let report = dmarc_report(records);
    assert_eq!(report.disposition_totals(), (9, 0, 8, 8));
    assert_eq!(report.reporter(), "google.com");
    assert_eq!(report.record_page("", 1), (0..10).collect::<Vec<usize>>());
    assert_eq!(report.record_page("", 3), (20..25).collect::<Vec<usize>>());
    assert!(report.record_page("", 4).is_empty());
    assert_eq!(report.record_page("user1", 1), vec![1, 10, 11, 12, 13, 14, 15, 16, 17, 18]);
    assert_eq!(report.record_page("user1", 2), vec![19]);
    let mut unnamed = dmarc_report(vec![]);
    unnamed.report_metadata.org_name = String::new();
    assert_eq!(unnamed.reporter(), "N/A");
}

#[test]
fn paging_covers_each_match_once() {
    let flags: Vec<bool> = (0..37).map(|i| i % 2 == 0).collect();
    let mut seen = vec![];
    for page in 1..=3 {
        seen.extend(page_indices(&flags, page));
    }
    assert_eq!(seen, (0..37).filter(|i| i % 2 == 0).collect::<Vec<usize>>());
    assert_eq!(page_indices(&flags, 0), page_indices(&flags, 1));
}

#[test]
fn tls_totals_and_pages() {
    let failure = FailureDetails {
        receiving_mx_hostname: Some("mx.example.org".to_string()),
        failed_session_count: 3,
        ..Default::default()
    };
    let report = TlsReport {
        organization_name: Some("Org".to_string()),
        date_range: TlsDateRange { start_datetime: at(0), end_datetime: at(86400) },
        contact_info: None,
        report_id: "r1".to_string(),
        policies: vec![tls_policy("example.org", 10, 2, vec![failure.clone()]), tls_policy("other.org", 5, 0, vec![])],
    };
    assert_eq!(report.session_totals(), (15, 2));
    assert_eq!(report.policy_page("other", 1), vec![1]);
    assert_eq!(report.policy_page("sts", 1), vec![0, 1]);
    assert_eq!(report.policies[0].failure_page("mx.example", 1), vec![0]);
    assert!(report.policies[0].failure_page("zzz", 1).is_empty());
    assert!(failure.contains_string("mx.example"));
}

#[test]
fn extras_and_destinations() {
    let extras = vec![("A".to_string(), "1".to_string()), ("B".to_string(), String::new())];
    assert_eq!(shown_extras(extras), vec![("A".to_string(), "1".to_string())]);
    let tls = AggregateReport::Tls {
        id: "t".to_string(),
        domain: "x.org".to_string(),
        range_from: at(0),
        range_to: at(1),
        report: TlsReport {
            organization_name: None,
            date_range: TlsDateRange { start_datetime: at(0), end_datetime: at(1) },
            contact_info: None,
            report_id: String::new(),
            policies: vec![],
        },
        rua: vec![ReportUri::Mail("a@x.org".to_string()), ReportUri::Http("https://r.x.org".to_string())],
    };
    assert_eq!(tls.report_uris(), "mailto:a@x.org, https://r.x.org");
    let dmarc = AggregateReport::Dmarc {
        id: "d".to_string(),
        domain: "x.org".to_string(),
        range_from: at(0),
        range_to: at(1),
        report: Report::default(),
        rua: vec![URI { uri: "mailto:d@x.org".to_string(), max_size: 0 }],
    };
    assert_eq!(dmarc.report_uris(), "mailto:d@x.org");
}

#[test]
fn aggregate_report_ids() {
    let id = AggregateReportId::parse("d!example.org!7!1700000000!1700086400".to_string()).unwrap();
    assert_eq!(id.typ, AggregateReportType::Dmarc);
    assert_eq!(id.domain, "example.org");
    assert_eq!(id.policy, 7);
    assert_eq!(id.created, at(1_700_000_000));
    assert_eq!(id.due, at(1_700_086_400));
    assert!(AggregateReportId::parse("x!example.org!7!1!2".to_string()).is_none());
    assert!(AggregateReportId::parse("t!!7!1!2".to_string()).is_none());
    assert!(AggregateReportId::parse("t!a.org!7!1".to_string()).is_none());
}

#[test]
fn received_reports() {
    assert_eq!(ReportType::Tls.as_str(), "tls");
    assert_eq!(ReportType::from_param(Some("arf")), ReportType::Arf);
    assert_eq!(ReportType::from_param(Some("other")), ReportType::Dmarc);
    assert_eq!(ReportType::Arf.title(), "Failure Reports");
    assert_eq!(ReportType::Tls.report_url("5"), "/manage/reports/tls/5");
    assert_eq!(parse_report_date("dmarc_1700000000"), at(1_700_000_000));
    assert_eq!(parse_report_date("nodate"), at(0));
    assert_eq!(domains_column(&vec!["a.org".to_string()]), ("a.org".to_string(), None));
    assert_eq!(
        domains_column(&vec!["a.org".to_string(), "b.org".to_string()]),
        ("a.org and others".to_string(), Some("2".to_string()))
    );
    assert_eq!(domains_column(&vec![]), (String::new(), None));
    assert_eq!(removed_reports_message(3), Some("Removed 3 reports.".to_string()));
}

#[test]
fn dmarc_summary_of_a_received_report() {
    let report = IncomingReport {
        from: "noreply@google.com".to_string(),
        to: vec!["dmarc@example.org".to_string()],
        subject: "Report".to_string(),
        report: dmarc_report(vec![
            record("a@x.org", ActionDisposition::Pass),
            record("b@x.org", ActionDisposition::NoAction),
            record("c@x.org", ActionDisposition::Reject),
        ]),
    };
    let (_, fields) = report.clone().unwrap_report();
    assert_eq!(fields[1], ("Recipients".to_string(), "dmarc@example.org".to_string()));
    match IncomingReportSummary::dmarc("dmarc_1700000000".to_string(), report) {
        IncomingReportSummary::Dmarc { total_passes, total_rejects, total_quarantined, domains, range_from, .. } => {
            assert_eq!((total_passes, total_rejects, total_quarantined), (2, 1, 0));
            assert_eq!(domains, vec!["example.org".to_string()]);
            assert_eq!(range_from, at(1_700_000_000));
        }
        other => panic!("unexpected summary {other:?}"),
    }
}

#[test]
fn queued_report_list() {
    let items = vec![
        "d!example.org!7!1700000000!1700086400".to_string(),
        "garbage".to_string(),
        "t!example.net!1!1700000000!1700086400".to_string(),
    ];
    let ids = queued_report_ids(&items);
    assert_eq!(ids.len(), 2);
    assert_eq!(ids[0].id, items[0]);
    assert_eq!(ids[0].typ, AggregateReportType::Dmarc);
    assert_eq!(ids[1].domain, "example.net");
    assert_eq!(removed_queued_reports_message(0), None);
    assert_eq!(removed_queued_reports_message(1), Some("Removed 1 report from queue.".to_string()));
    assert_eq!(removed_queued_reports_message(3), Some("Removed 3 reports from queue.".to_string()));
}
