use webadmin::troubleshoot::{
    absorb_stages, request_headers, AuthResult, DeliveryStage, Details, DmarcPolicy, DmarcTroubleshootResponse, Mode,
    MxPattern, Policy, ReportUri, Tlsa, TlsaEntry, MX,
};
use webadmin::{Color, Icon};

#[test]
fn mx_lookup_details() {
    let d = DeliveryStage::MxLookupSuccess {
        mxs: vec![
            MX { exchanges: vec!["mx1.example.org".to_string(), "mx2.example.org".to_string()], preference: 10 },
            MX { exchanges: vec!["backup.example.org".to_string()], preference: 20 },
        ],
        elapsed: 1500,
    }
    .details();
    assert_eq!(d.title, "MX Lookup Successful");
    assert_eq!(d.subtitle, "Successfully fetched MX records for domain.");
    assert_eq!(
        d.items,
        vec![
            "mx1.example.org, mx2.example.org with preference 10".to_string(),
            "backup.example.org with preference 20".to_string()
        ]
    );
    assert_eq!(d.elapsed, Some(1500));
    assert_eq!(d.completed_in(), Some("Completed in 1 second and 500 ms".to_string()));
}

#[test]
fn start_stages_name_their_target() {
    let d = DeliveryStage::MxLookupStart { domain: "example.org".to_string() }.details();
    assert_eq!(d.title, "MX Lookup for example.org");
    assert_eq!(d.subtitle, "Querying MX records for domain example.org..");
    assert_eq!(d.elapsed, None);
    assert_eq!(d.completed_in(), None);
    let c = DeliveryStage::ConnectionStart { remote_ip: "192.0.2.1".to_string() }.details();
    assert_eq!(c.subtitle, "Attempting to establish TCP connection to 192.0.2.1 on port 25...");
    let e = DeliveryStage::EhloError { elapsed: 3, reason: "bad greeting".to_string() }.details();
    assert_eq!((e.title.as_str(), e.subtitle.as_str(), e.elapsed), ("EHLO Command Rejected", "bad greeting", Some(3)));
}

#[test]
fn policy_and_tlsa_items() {
    let policy = Policy {
        id: "20240101".to_string(),
        mode: Mode::Enforce,
        mx: vec![MxPattern::Equals("mx.example.org".to_string()), MxPattern::StartsWith("example.net".to_string())],
        max_age: 86400,
    };
    assert_eq!(
        policy.clone().items(),
        vec![
            "Enforce policy".to_string(),
            "Policy authorizes MX mx.example.org".to_string(),
            "Policy authorizes MXs *.example.net".to_string(),
            "Policy ID is 20240101".to_string(),
            "Policy max-age is 86400".to_string(),
        ]
    );
    let tlsa = Tlsa {
        entries: vec![TlsaEntry { is_end_entity: true, is_sha256: true, is_spki: true, data: vec![0x0a, 0xff, 0x01] }],
        has_end_entities: true,
        has_intermediates: false,
    };
    assert_eq!(tlsa.items(), vec!["End entity with SHA-256 hash aff1".to_string()]);
    let d = DeliveryStage::MtaStsFetchSuccess { policy, elapsed: 10 }.details();
    assert_eq!(d.items.len(), 5);
}

#[test]
fn report_destinations() {
    let d = DeliveryStage::TlsRptLookupSuccess {
        rua: vec![ReportUri::Mail { email: "tls@x.org".to_string() }, ReportUri::Http { url: "https://x.org".to_string() }],
        elapsed: 1,
    }
    .details();
    assert_eq!(
        d.items,
        vec!["Send TLS report to e-mail tls@x.org".to_string(), "Submit TLS report to URL https://x.org".to_string()]
    );
}

#[test]
fn stage_icons() {
    assert_eq!(DeliveryStage::EhloStart.icon(), Icon::Clock);
    assert_eq!(DeliveryStage::EhloSuccess { elapsed: 1 }.icon(), Icon::CheckCircle);
    assert_eq!(DeliveryStage::TlsaNotFound { elapsed: 1, reason: String::new() }.icon(), Icon::ExclamationTriangle);
    assert_eq!(DeliveryStage::DaneVerifyError { reason: String::new() }.icon(), Icon::Cancel);
}

#[test]
fn stage_history_drops_completion() {
    let mut history = vec![DeliveryStage::MtaStsFetchStart];
    let closes = absorb_stages(&mut history, vec![DeliveryStage::QuitStart, DeliveryStage::Completed]);
    assert_eq!(closes, 1);
    assert_eq!(history, vec![DeliveryStage::MtaStsFetchStart, DeliveryStage::QuitStart]);
    assert_eq!(absorb_stages(&mut history, vec![DeliveryStage::EhloStart]), 0);
    assert_eq!(history.len(), 3);
    let twice = vec![DeliveryStage::Completed, DeliveryStage::EhloStart, DeliveryStage::Completed];
    assert_eq!(absorb_stages(&mut history, twice), 2);
    assert_eq!(history.len(), 4);
}

#[test]
fn details_builders() {
    let d = Details::new("T".to_string(), "S".to_string()).elapsed(5).items(vec!["a".to_string()]);
    assert_eq!(d.items, vec!["a".to_string()]);
    assert_eq!(d.with_items(vec![]).items.len(), 0);
}

#[test]
fn authentication_results() {
    let fail = AuthResult::Fail { details: Some("no key".to_string()) };
    assert_eq!(fail.text(), "Fail");
    assert_eq!(fail.error(), Some("no key".to_string()));
    assert_eq!(fail.icon(), Icon::Cancel);
    assert_eq!(fail.badge(), (Color::Red, Icon::AlertTriangle));
    assert_eq!(AuthResult::NoResult.text(), "None");
    assert_eq!(AuthResult::Pass.error(), None);
    assert_eq!(AuthResult::Neutral { details: None }.icon(), Icon::ExclamationTriangle);
    assert_eq!(DmarcPolicy::Unspecified.badge(), (Color::Blue, Icon::ArrowRightCircle, "None"));
    assert_eq!(DmarcPolicy::Reject.badge(), (Color::Red, Icon::Cancel, "Reject"));
}

#[test]
fn dkim_summary_and_request() {
    let mut response = DmarcTroubleshootResponse {
        spf_ehlo_domain: "x.org".to_string(),
        spf_ehlo_result: AuthResult::Pass,
        spf_mail_from_domain: "x.org".to_string(),
        spf_mail_from_result: AuthResult::Pass,
        ip_rev_result: AuthResult::Pass,
        ip_rev_ptr: vec![],
        dkim_results: vec![AuthResult::PermError { details: Some("bad".to_string()) }, AuthResult::Pass],
        dkim_pass: false,
        arc_result: AuthResult::NoResult,
        dmarc_result: AuthResult::Pass,
        dmarc_pass: true,
        dmarc_policy: DmarcPolicy::Reject,
        elapsed: 5,
    };
    assert_eq!(response.dkim_result(), AuthResult::PermError { details: Some("bad".to_string()) });
    response.dkim_pass = true;
    assert_eq!(response.dkim_result(), AuthResult::Pass);
    response.dkim_pass = false;
    response.dkim_results.clear();
    assert_eq!(response.dkim_result(), AuthResult::NoResult);
    assert_eq!(request_headers(Some("  \n ")), None);
    assert_eq!(request_headers(Some("DKIM-Signature: x")), Some("DKIM-Signature: x".to_string()));
    assert_eq!(request_headers(None), None);
}
