use webadmin::dashboard::{duration, Bucket, LiveMetric, Metric, MetricSummaries, Period, Section};
use webadmin::time::UtcDateTime;

fn counter(id: &str, secs: i64, value: u64) -> Metric {
    Metric::Counter { id: id.to_string(), timestamp: UtcDateTime { secs, nanos: 0 }, value }
}

#[test]
fn sections_from_the_page() {
    assert_eq!(Section::from_param(Some("network")), Section::Network);
    assert_eq!(Section::from_param(Some("performance")), Section::Performance);
    assert_eq!(Section::from_param(Some("bogus")), Section::Overview);
    assert_eq!(Section::from_param(None), Section::Overview);
}

#[test]
fn period_start_is_counted_back() {
    let start = Period::LastDay.start_at(UtcDateTime { secs: 1_700_090_015, nanos: 5 }).unwrap();
    assert_eq!(start, "2023-11-14T22:13:20Z");
    assert!(Period::Last90Days.as_timestamp().unwrap().ends_with('Z'));
}

#[test]
fn summaries_of_stored_metrics() {
    let metrics = vec![
        counter("queue.count", 0, 5),
        Metric::Histogram {
            id: "delivery.total-time".to_string(),
            timestamp: UtcDateTime { secs: 0, nanos: 0 },
            count: 4,
            sum: 400,
        },
        counter("queue.count", 0, 7),
    ];
    let s = MetricSummaries::from_history(&metrics);
    assert_eq!(s.sum(&["queue.count"]), 12);
    assert_eq!(s.average(&["queue.count"]), 6);
    assert_eq!(s.average(&["delivery.total-time"]), 100);
    assert_eq!(s.sum(&["queue.count", "delivery.total-time"]), 412);
    assert_eq!(s.sum(&["missing"]), 0);
    assert_eq!(s.average(&["missing"]), 0);
    assert_eq!(s.totals(&["queue.count"]), Some((12, 2)));
    assert_eq!(metrics[1].id(), "delivery.total-time");
}

#[test]
fn live_summaries_keep_the_last_reading() {
    let live = vec![
        LiveMetric::Gauge { id: "server.memory".to_string(), value: 100 },
        LiveMetric::Counter { id: "user.count".to_string(), value: 3 },
        LiveMetric::Gauge { id: "server.memory".to_string(), value: 250 },
    ];
    let s = MetricSummaries::from_live(&live);
    assert_eq!(s.sum(&["server.memory"]), 250);
    assert_eq!(s.sum(&["user.count"]), 3);
}

#[test]
fn charts_bucket_readings_by_hour() {
    let now_secs = 1_700_000_000;
    let now = UtcDateTime { secs: now_secs, nanos: 0 };
    let metrics = vec![
        counter("smtp.connection-start", now_secs - 60, 2),
        counter("smtp.connection-start", now_secs - 3 * 3600 - 10, 5),
        counter("delivery.attempt-start", now_secs - 30, 4),
        counter("smtp.connection-start", now_secs - 30 * 3600, 9),
        counter("other", now_secs - 60, 1),
    ];
    let bucket = Bucket::create(Period::LastDay);
    assert_eq!(bucket.value.len(), 24);
    assert_eq!(bucket.value[5].x, 5);
    let ids: [&[&str]; 2] = [&["smtp.connection-start"], &["delivery.attempt-start"]];
    let points = bucket.add_readings(&metrics, &ids, now).unwrap().finish_sum();
    assert_eq!(points[23].y, [2, 4, 0, 0]);
    assert_eq!(points[20].y, [5, 0, 0, 0]);
    assert_eq!(points.iter().map(|p| p.y[0]).sum::<u64>(), 7);
}

#[test]
fn charts_of_averages() {
    let now = UtcDateTime { secs: 1_700_000_000, nanos: 0 };
    let metrics = vec![
        counter("server.memory", now.secs - 10, 100),
        counter("server.memory", now.secs - 20, 300),
        counter("server.memory", now.secs - 2 * 86400, 50),
    ];
    let ids: [&[&str]; 1] = [&["server.memory"]];
    let points = Bucket::create(Period::Last7Days).add_readings(&metrics, &ids, now).unwrap().finish_avg();
    assert_eq!(points.len(), 7);
    assert_eq!(points[6].y[0], 200);
    assert_eq!(points[4].y[0], 50);
    assert_eq!(points[0].y[0], 0);
}

#[test]
fn chart_overflow_is_reported() {
    let now = UtcDateTime { secs: 1_700_000_000, nanos: 0 };
    let metrics = vec![counter("a", now.secs, u64::MAX), counter("a", now.secs, 1)];
    let ids: [&[&str]; 1] = [&["a"]];
    assert!(Bucket::create(Period::LastDay).add_readings(&metrics, &ids, now).is_none());
    let too_many: [&[&str]; 5] = [&["a"], &["b"], &["c"], &["d"], &["e"]];
    assert!(Bucket::create(Period::LastDay).add_readings_now(&metrics, &too_many).is_none());
    let recent = vec![counter("a", webadmin::time::now().secs, 1)];
    let b = Bucket::create(Period::LastDay).add_readings_now(&recent, &ids).unwrap();
    assert_eq!(b.finish_sum()[23].y[0], 1);
}

#[test]
fn durations_are_humanized() {
    assert_eq!(duration(0), "0 seconds");
    assert_eq!(duration(90_000), "1 minute and 30 seconds");
    assert_eq!(duration(u64::MAX), duration(0));
}
