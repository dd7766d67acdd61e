use webadmin::tracing::{
    format_kv, format_size_decimal, format_value, live_params, milliseconds_to_human_readable, page_details,
    push_capped, recipients_column, span_info, span_url, event_time_line, Event, EventIcon, Formatted, Key, SubEvent,
    Value,
};
use webadmin::time::UtcDateTime;

fn event(typ: &str, secs: i64, data: Vec<(Key, Value)>) -> Event {
    Event {
        typ: typ.to_string(),
        text: Some("text".to_string()),
        details: None,
        created_at: UtcDateTime { secs, nanos: 0 },
        data,
    }
}

#[test]
fn durations_in_words() {
    assert_eq!(milliseconds_to_human_readable(0), "0 ms");
    assert_eq!(milliseconds_to_human_readable(1500), "1 second and 500 ms");
    assert_eq!(milliseconds_to_human_readable(120_000), "2 minutes");
    assert_eq!(milliseconds_to_human_readable(61_000), "1 minute and 1 second");
    assert_eq!(milliseconds_to_human_readable(90_061_001), "1 day, 1 hour, 1 minute, 1 second and 1 ms");
    assert_eq!(milliseconds_to_human_readable(172_800_000), "2 days");
}

#[test]
fn event_data_lookup() {
    let e = event(
        "delivery.attempt-start",
        0,
        vec![
            (Key::From, Value::String("a@x.org".to_string())),
            (Key::Size, Value::Int(2048)),
            (Key::To, Value::Array(vec![Value::String("b@x.org".to_string()), Value::String("c@x.org".to_string())])),
            (Key::Size, Value::Int(1)),
        ],
    );
    assert_eq!(e.get_as_str(Key::From), Some("a@x.org"));
    assert_eq!(e.get_as_int(Key::Size), Some(2048));
    assert_eq!(e.get_as_int(Key::From), None);
    assert_eq!(e.get_as_str_list(Key::To), vec!["b@x.org".to_string(), "c@x.org".to_string()]);
    assert_eq!(e.get_as_str_list(Key::From), vec!["a@x.org".to_string()]);
    assert!(e.get(Key::SpanId).is_none());
    assert_eq!(recipients_column(&e.get_as_str_list(Key::To)), "b@x.org +1 more");
    assert_eq!(recipients_column(&vec![]), "");
}

#[test]
fn event_icons() {
    assert_eq!(event("smtp.connection-start", 0, vec![]).icon(), EventIcon::Clock);
    assert_eq!(event("auth.failed", 0, vec![]).icon(), EventIcon::ExclamationCircle);
    assert_eq!(event("queue.queue-message", 0, vec![]).icon(), EventIcon::ChatBubbleBottom);
}

#[test]
fn rendering_values() {
    assert_eq!(
        format_value(Key::QueueId, &Value::Int(12)),
        Formatted::Link { href: "/manage/tracing/delivery?queue_id=12".to_string(), text: "12".to_string() }
    );
    assert_eq!(format_value(Key::Elapsed, &Value::Int(2000)), Formatted::Text("2 seconds".to_string()));
    assert_eq!(format_value(Key::Tls, &Value::Bool(true)), Formatted::Text("enabled".to_string()));
    assert_eq!(format_value(Key::Strict, &Value::Bool(false)), Formatted::Text("false".to_string()));
    assert_eq!(format_value(Key::Total, &Value::Int(7)), Formatted::Text("7".to_string()));
    assert_eq!(format_value(Key::Size, &Value::Int(1000)), Formatted::Text(format_size_decimal(1000)));
    assert_eq!(format_size_decimal(1000), "1 kB");
    assert_eq!(format_value(Key::Due, &Value::String("soon".to_string())), Formatted::Text("soon".to_string()));
    let due = "2024-01-01T10:00:00Z";
    match format_value(Key::Due, &Value::String(due.to_string())) {
        Formatted::Text(t) => {
            assert_ne!(t, due);
            assert!(t.contains(" 2024 ") || t.contains(" 2023 "), "{t}");
            assert!(t.ends_with(":00"), "{t}");
        }
        other => panic!("unexpected rendering {other:?}"),
    }
    let kv = format_kv(Key::Total, &Value::Int(3));
    assert_eq!(kv.label, format!("{} ", Key::Total.description()));
    let nested = Value::Event(SubEvent {
        typ: "x".to_string(),
        text: Some("inner".to_string()),
        details: None,
        data: vec![(Key::Code, Value::Int(250))],
    });
    match format_value(Key::Details, &nested) {
        Formatted::Event { text, items } => {
            assert_eq!(text, "inner");
            assert_eq!(items.len(), 1);
            assert_eq!(items[0].value, Formatted::Text("250".to_string()));
        }
        other => panic!("unexpected rendering {other:?}"),
    }
}

#[test]
fn live_filter_keywords() {
    assert_eq!(
        live_params("  remote_ip: 10.0.0.1  spam\tqueue_id:5 "),
        vec![
            ("remote_ip".to_string(), "".to_string()),
            ("filter".to_string(), "10.0.0.1".to_string()),
            ("filter".to_string(), "spam".to_string()),
            ("queue_id".to_string(), "5".to_string()),
        ]
    );
    assert!(live_params("").is_empty());
}

#[test]
fn live_history_is_capped() {
    let mut history: Vec<u32> = (0..8).collect();
    push_capped(&mut history, vec![100, 101, 102], 10);
    assert_eq!(history, vec![1, 2, 3, 4, 5, 6, 7, 100, 101, 102]);
    push_capped(&mut history, vec![], 10);
    assert_eq!(history.len(), 10);
    let mut small: Vec<u32> = vec![1];
    push_capped(&mut small, vec![2], 10);
    assert_eq!(small, vec![1, 2]);
}

#[test]
fn span_pages() {
    let d = page_details(Some("delivery"));
    assert_eq!(d.event_type, "delivery.attempt-start");
    assert_eq!(d.url, "/manage/tracing/delivery");
    assert_eq!(page_details(None).title, "Received Messages");
    assert_eq!(span_url(42), "/manage/tracing/span/42");
    assert!(span_info(&vec![event("smtp.connection-start", 0, vec![])]).is_none());
    let info = span_info(&vec![
        event("smtp.connection-start", 10, vec![]),
        event("smtp.mail-from", 11, vec![]),
        event("smtp.connection-end", 15, vec![]),
    ])
    .unwrap();
    assert_eq!(info.kind, "Received Message");
    assert_eq!(info.num_events, 1);
    assert_eq!(info.end.secs - info.start.secs, 5);
}

#[test]
fn event_time_lines() {
    let e = event("smtp.mail-from", 1_700_000_090, vec![]);
    let line = event_time_line(&e, UtcDateTime { secs: 1_700_000_000, nanos: 0 }).unwrap();
    assert!(line.ends_with(" (1 minute and 30 seconds later)"), "{line}");
    assert!(event_time_line(&e, UtcDateTime { secs: i64::MAX, nanos: 0 }).is_none());
}
