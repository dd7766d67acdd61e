use webadmin::queue::{
    attempt_title, blob_text, bulk_step, cancel_filters, count_label, headers_only, queue_status_action,
    queue_summary, removed_message, rescheduled_message, retry_filters, shows_retry, ItemSelection, Message,
    Recipient, RequestOutcome, Status,
};
use webadmin::queue::{bulk_total, recipients_done_message, reply_outcome, Reply};
use webadmin::time::UtcDateTime;
use webadmin::Color;

fn at(secs: i64) -> UtcDateTime {
    UtcDateTime { secs, nanos: 0 }
}

fn recipient(address: &str, status: Status, queue: &str, next_retry: Option<i64>) -> Recipient {
    Recipient {
        address: address.to_string(),
        status,
        queue: queue.to_string(),
        retry_num: 0,
        next_retry: next_retry.map(at),
        next_notify: None,
        expires: next_retry.map(|s| at(s + 1000)),
        orcpt: None,
    }
}

fn message(recipients: Vec<Recipient>) -> Message {
    Message {
        id: 1,
        return_path: "sender@example.org".to_string(),
        recipients,
        created: at(0),
        size: 100,
        priority: 0,
        env_id: None,
        blob_hash: "abc".to_string(),
    }
}

#[test]
fn return_path_of_a_bounce() {
    let mut m = message(vec![]);
    assert_eq!(m.return_path(), "sender@example.org");
    m.return_path = String::new();
    assert_eq!(m.return_path(), "Mailer Daemon");
}

#[test]
fn next_retry_is_earliest_pending() {
    let m = message(vec![
        recipient("a@x.org", Status::Scheduled, "default", Some(300)),
        recipient("b@x.org", Status::Completed("250 ok".to_string()), "default", Some(10)),
        recipient("c@x.org", Status::TemporaryFailure("busy".to_string()), "default", Some(200)),
    ]);
    assert_eq!(m.next_retry(), Some(at(200)));
    assert_eq!(m.expires(), Some(at(1200)));
    assert_eq!(message(vec![]).next_retry(), None);
}

#[test]
fn next_retry_absent_for_first_pending() {
    let m = message(vec![recipient("a@x.org", Status::Scheduled, "default", None)]);
    assert_eq!(m.next_retry(), None);
    assert_eq!(m.next_dsn(), None);
}

#[test]
fn status_message() {
    assert_eq!(Status::Scheduled.unwrap_message(), "N/A");
    assert_eq!(Status::PermanentFailure("550 no".to_string()).unwrap_message(), "550 no");
}

#[test]
fn queue_row_summary() {
    let m = message(vec![
        recipient("a@x.org", Status::Completed("ok".to_string()), "remote", None),
        recipient("b@x.org", Status::Scheduled, "local", None),
        recipient("c@x.org", Status::PermanentFailure("no".to_string()), "remote", None),
    ]);
    let s = queue_summary(&m);
    assert_eq!((s.total_success, s.total_pending, s.total_failed), (1, 1, 1));
    assert_eq!(s.recipients, "a@x.org and 2 more");
    assert_eq!(s.queues, "local, remote");
}

#[test]
fn priority_labels() {
    let mut m = message(vec![]);
    assert_eq!(m.priority_label(), "normal");
    m.priority = -3;
    assert_eq!(m.priority_label(), "low");
    m.priority = 5;
    assert_eq!(m.priority_label(), "high");
}

#[test]
fn header_block_stops_at_blank_line() {
    let raw = b"Subject: hi\r\nFrom: a@x.org\r\n\r\nbody text\n".to_vec();
    assert_eq!(headers_only(&raw), b"Subject: hi\nFrom: a@x.org\n".to_vec());
    assert_eq!(blob_text(raw.clone(), true), "Subject: hi\nFrom: a@x.org\n");
    assert_eq!(blob_text(raw, false), "Subject: hi\r\nFrom: a@x.org\r\n\r\nbody text\n");
    assert_eq!(blob_text(vec![0xff, b'a'], false), "\u{fffd}a");
    assert!(headers_only(&vec![]).is_empty());
}

#[test]
fn status_columns_split_the_server_response() {
    let s = Status::TemporaryFailure("421 4.3.0, Message: try later".to_string());
    assert_eq!(s.columns(), ("421 4.3.0".to_string(), "try later".to_string()));
    assert_eq!(Status::Scheduled.columns(), (String::new(), "N/A".to_string()));
    assert_eq!(Status::Scheduled.display(), Status::TemporaryFailure("Scheduled".to_string()));
    assert_eq!(Status::Completed("x".to_string()).display(), Status::Completed("Delivered".to_string()));
    assert_eq!(Status::Completed("x".to_string()).badge_color(), Color::Green);
    assert_eq!(Status::PermanentFailure("x".to_string()).badge_color(), Color::Red);
}

#[test]
fn retry_column_and_titles() {
    let done = Status::Completed("ok".to_string());
    assert!(shows_retry(&Status::Scheduled, at(100), at(50)));
    assert!(!shows_retry(&done, at(100), at(50)));
    assert!(shows_retry(&done, at(10), at(50)));
    assert_eq!(attempt_title("delivery.attempt-start"), "Delivery Attempt");
    assert_eq!(attempt_title("smtp.connection-start"), "Message Received");
}

#[test]
fn selections_become_filters() {
    assert_eq!(retry_filters(ItemSelection::All), Some(vec![String::new()]));
    assert_eq!(retry_filters(ItemSelection::Nothing), None);
    let sel = vec!["a@x.org".to_string()];
    assert_eq!(retry_filters(ItemSelection::Selected(sel.clone())), Some(sel.clone()));
    assert_eq!(cancel_filters(ItemSelection::Selected(sel.clone()), 1), Some(vec![String::new()]));
    assert_eq!(cancel_filters(ItemSelection::Selected(sel.clone()), 3), Some(sel));
    assert_eq!(count_label("Retry", 0), "Retry");
    assert_eq!(count_label("Retry", 3), "Retry (3)");
}

#[test]
fn bulk_actions() {
    assert_eq!(bulk_step(2, RequestOutcome::Applied), Some(3));
    assert_eq!(bulk_step(2, RequestOutcome::Skipped), Some(2));
    assert_eq!(bulk_step(2, RequestOutcome::Failed), None);
    assert_eq!(removed_message(0), None);
    assert_eq!(removed_message(1), Some("Removed 1 message from queue.".to_string()));
    assert_eq!(
        rescheduled_message(2),
        Some("Successfully requested immediate delivery of 2 messages.".to_string())
    );
    assert_eq!(queue_status_action(true), ("/api/queue/status/start", "Queue processing has been resumed."));
    assert_eq!(queue_status_action(false), ("/api/queue/status/stop", "Queue processing has been paused."));
}

#[test]
fn replies_of_bulk_actions() {
    assert_eq!(reply_outcome(Reply::Answered(true)), RequestOutcome::Applied);
    assert_eq!(reply_outcome(Reply::Answered(false)), RequestOutcome::Skipped);
    assert_eq!(reply_outcome(Reply::NotFound), RequestOutcome::Skipped);
    assert_eq!(reply_outcome(Reply::Failed), RequestOutcome::Failed);
    let replies = [Reply::Answered(true), Reply::NotFound, Reply::Answered(true), Reply::Answered(false)];
    let outcomes: Vec<RequestOutcome> = replies.iter().map(|r| reply_outcome(*r)).collect();
    assert_eq!(bulk_total(&outcomes), Some(2));
    let failing = vec![RequestOutcome::Applied, RequestOutcome::Failed, RequestOutcome::Applied];
    assert_eq!(bulk_total(&failing), None);
    assert_eq!(bulk_total(&vec![]), Some(0));
    assert_eq!(recipients_done_message(true), "Successfully requested cancellation.");
    assert_eq!(recipients_done_message(false), "Successfully requested immediate delivery.");
}
