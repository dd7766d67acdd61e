use webadmin::spam::{classification, tag_action, SpamFilterDisposition};
use webadmin::listing::{filter_param, page_param, search_text};
use webadmin::logs::LogEntry;
use webadmin::schema::{Builder, Field, SelectType, Transformer, Type, Validator};
use webadmin::session::{expire, prefill, refresh_after, session_from_grant, SavedSession};
use webadmin::time::{parse_rfc3339, FormatDateTime, UtcDateTime};
use webadmin::undelete::{restore_message, restore_requests, tally, DeletedBlob, UndeleteResponse};
use webadmin::{maybe_plural, Color};

#[test]
fn plural_words() {
    assert_eq!(maybe_plural(1, "blob", "blobs"), "1 blob");
    assert_eq!(maybe_plural(0, "blob", "blobs"), "0 blobs");
    assert_eq!(maybe_plural(12, "report", "reports"), "12 reports");
}

#[test]
fn list_parameters() {
    assert_eq!(page_param(Some("3")), 3);
    assert_eq!(page_param(Some("0")), 1);
    assert_eq!(page_param(Some("-2")), 1);
    assert_eq!(page_param(Some("4294967296")), 1);
    assert_eq!(page_param(Some("+7")), 7);
    assert_eq!(page_param(None), 1);
    assert_eq!(filter_param(Some("  spam ")), Some("spam".to_string()));
    assert_eq!(filter_param(Some("   ")), None);
    assert_eq!(search_text(Some(" MiXed ")), "mixed");
    assert_eq!(search_text(None), "");
}

#[test]
fn log_levels() {
    let entry = |level: &str| LogEntry {
        timestamp: UtcDateTime { secs: 0, nanos: 0 },
        level: level.to_string(),
        message: "m".to_string(),
    };
    assert_eq!(entry("ERROR").level_color(), Color::Red);
    assert_eq!(entry("WARN").level_color(), Color::Yellow);
    assert_eq!(entry("INFO").level_color(), Color::Green);
    assert_eq!(entry("DEBUG").level_color(), Color::Blue);
    assert_eq!(entry("TRACE").level_color(), Color::Gray);
}

#[test]
fn form_schemas() {
    let b = Builder::new().build_live_tracing().build_domains();
    assert_eq!(b.schemas.len(), 2);
    assert_eq!(b.schemas[0].id, "live-tracing");
    assert_eq!(
        b.schemas[0].fields,
        vec![Field {
            id: "filter".to_string(),
            typ: Type::Input,
            transformers: vec![Transformer::Lowercase],
            validators: vec![],
            default: None,
        }]
    );
    assert_eq!(b.schemas[1].fields[0].validators, vec![Validator::Required, Validator::IsDomain]);
    let b = b.build_principals().build_troubleshoot().build_spam_manage();
    assert_eq!(b.schemas.len(), 7);
    assert_eq!(b.schemas[2].fields.len(), 6);
    assert_eq!(b.schemas[4].id, "troubleshoot-dmarc");
    let flags = &b.schemas[5].fields[5];
    assert_eq!(flags.default, Some(String::new()));
    match &flags.typ {
        Type::Select { typ, options } => {
            assert_eq!(*typ, SelectType::Single);
            assert_eq!(options.len(), 5);
            assert_eq!(options[2], ("8bitmime".to_string(), "8bit MIME".to_string()));
        }
        other => panic!("unexpected field kind {other:?}"),
    }
    assert_eq!(b.schemas[6].fields[2].default, Some("spam".to_string()));
}

#[test]
fn restoring_blobs() {
    let blob = |hash: &str| DeletedBlob {
        hash: hash.to_string(),
        size: 10,
        deleted_at: UtcDateTime { secs: 100, nanos: 0 },
        expires_at: UtcDateTime { secs: 200, nanos: 0 },
        collection: "email".to_string(),
    };
    let blobs = vec![blob("h1"), blob("h2")];
    let requests = restore_requests(&vec!["h2".to_string(), "missing".to_string()], &blobs);
    assert_eq!(requests.len(), 1);
    assert_eq!(requests[0].hash, "h2");
    assert_eq!(requests[0].time.secs, 100);
    assert_eq!(requests[0].cancel_deletion.secs, 200);
    let (ok, missing, errors) = tally(vec![
        UndeleteResponse::Success,
        UndeleteResponse::NotFound,
        UndeleteResponse::Error { reason: "locked".to_string() },
        UndeleteResponse::Success,
    ]);
    assert_eq!((ok, missing, errors), (2, 1, vec!["locked".to_string()]));
    assert_eq!(restore_message(2, 0, 0), (true, "Restored 2 blobs.".to_string()));
    assert_eq!(restore_message(1, 1, 0), (false, "Restored 1 blob and 1 blob could not be found.".to_string()));
    assert_eq!(
        restore_message(0, 2, 1),
        (false, "Restored 0 blobs, 2 blobs could not be found. Errors were found:".to_string())
    );
}

#[test]
fn sign_in() {
    assert_eq!(
        prefill(Some(SavedSession { login: "admin".to_string(), base_url: "https://mail.x.org".to_string() })),
        ("admin".to_string(), "https://mail.x.org".to_string())
    );
    assert_eq!(prefill(None), (String::new(), String::new()));
    assert_eq!(refresh_after(3600, "tok"), Some(3600));
    assert_eq!(refresh_after(3600, ""), None);
    assert_eq!(refresh_after(0, "tok"), None);
}

#[test]
fn rfc3339_instants() {
    assert_eq!(parse_rfc3339("2023-11-14T22:13:20Z"), Some(UtcDateTime { secs: 1_700_000_000, nanos: 0 }));
    assert_eq!(parse_rfc3339("2023-11-14T23:13:20+01:00"), Some(UtcDateTime { secs: 1_700_000_000, nanos: 0 }));
    assert_eq!(parse_rfc3339("yesterday"), None);
}

#[test]
fn spam_classification_of_disposition() {
    assert_eq!(classification("X-Spam-Status: Yes, score=7.2"), "SPAM");
    assert_eq!(classification("X-Spam-Status: No, score=0.3"), "HAM");
    assert_eq!(classification(""), "HAM");
}

#[test]
fn spam_tag_actions() {
    assert_eq!(tag_action(&SpamFilterDisposition::Allow { value: 1.5f64 }), None);
    assert_eq!(tag_action::<f64>(&SpamFilterDisposition::Discard), Some("DISCARD"));
    assert_eq!(tag_action::<f64>(&SpamFilterDisposition::Reject), Some("REJECT"));
}

#[test]
fn local_renderings_have_their_shape() {
    let t = UtcDateTime { secs: 1_704_103_200, nanos: 0 };
    let time = t.format_time();
    assert_eq!(time.len(), 8);
    assert_eq!(&time[2..3], ":");
    assert_eq!(&time[5..6], ":");
    assert!(time.ends_with(":00"));
    let date = t.format_date();
    assert!(t.format_date_time().starts_with(&date));
}

#[test]
fn session_from_a_grant() {
    let mut t = session_from_grant("tok".to_string(), None, "https://mail.example.org".to_string());
    assert_eq!(t.access_token, "tok");
    assert_eq!(t.refresh_token, "");
    assert_eq!(t.base_url, "https://mail.example.org");
    assert!(t.is_valid);
    expire(&mut t);
    assert!(!t.is_valid);
    assert_eq!(t.access_token, "tok");
    let t = session_from_grant("a".to_string(), Some("r".to_string()), "u".to_string());
    assert_eq!(t.refresh_token, "r");
}
