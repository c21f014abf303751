use skywidget::alerts_store::AlertsStore;
use skywidget::fixed::VALUE_UNIT;
use skywidget::metrics_store::{MetricDataPoint, MetricsStore};
use skywidget::rules::AlertSeverity;

#[test]
fn alert_history_keeps_the_most_recent_records() {
    let n: usize = 4;
    let mut store = AlertsStore::new(n);
    for k in 0..(n + 5) {
        let msg = format!("message {}", k);
        store.add_record("r1", "rule one", &msg, &AlertSeverity::Warning);
    }
    assert_eq!(store.count(), n);
    let records = store.get_all_records();
    assert_eq!(records.len(), n);
    // Oldest-first order, and exactly the most recent triggers remain.
    for (i, rec) in records.iter().enumerate() {
        assert_eq!(rec.message, format!("message {}", 5 + i));
        assert_eq!(rec.rule_id, "r1");
        assert_eq!(rec.rule_name, "rule one");
        assert!(!rec.acknowledged);
        assert_eq!(rec.id.len(), 36);
    }
}

#[test]
fn acknowledge_flips_exactly_the_named_record() {
    let mut store = AlertsStore::new(10);
    store.add_record("r1", "rule one", "first", &AlertSeverity::Info);
    store.add_record("r2", "rule two", "second", &AlertSeverity::Error);
    let id = store.get_all_records()[0].id.clone();

    assert!(store.acknowledge(&id));
    let records = store.get_all_records();
    assert!(records[0].acknowledged);
    assert!(!records[1].acknowledged);

    let open = store.get_unacknowledged_records();
    assert_eq!(open.len(), 1);
    assert_eq!(open[0].message, "second");

    assert!(!store.acknowledge("not-a-record-id"));
    assert_eq!(store.count(), 2);
}

#[test]
fn clear_empties_the_history() {
    let mut store = AlertsStore::new(10);
    store.add_record("r1", "rule one", "first", &AlertSeverity::Info);
    store.clear();
    assert_eq!(store.count(), 0);
    assert!(store.get_all_records().is_empty());
}

#[test]
fn alert_export_is_json_in_insertion_order() {
    let mut store = AlertsStore::new(10);
    let out = store.export_json().unwrap();
    assert_eq!(out, "[]");

    store.add_record("r1", "rule \"one\"", "used 50%\n", &AlertSeverity::Warning);
    let out = store.export_json().unwrap();
    assert!(out.starts_with("[{\"id\":\""));
    assert!(out.contains("\"rule_id\":\"r1\""));
    // Quotes and newlines in text are escaped.
    assert!(out.contains("\"rule_name\":\"rule \\\"one\\\"\""));
    assert!(out.contains("\"message\":\"used 50%\\n\""));
    assert!(out.contains("\"severity\":\"Warning\""));
    assert!(out.contains("\"acknowledged\":false"));
    assert!(out.ends_with("}]"));
}

#[test]
fn metric_series_keeps_the_most_recent_points() {
    let n: usize = 6;
    let mut store = MetricsStore::new(n);
    for k in 0..(n as i64 + 5) {
        store.add_metric_at("cpu_usage", k * VALUE_UNIT, 1_000 + k);
    }
    let points = store.get_metric("cpu_usage").unwrap();
    assert_eq!(points.len(), n);
    // Exactly the most recent samples remain, in order.
    for (i, p) in points.iter().enumerate() {
        let k = 5 + i as i64;
        assert_eq!(p.timestamp, 1_000 + k);
        assert_eq!(p.value, k * VALUE_UNIT);
    }
}

#[test]
fn series_are_bounded_per_metric() {
    let mut store = MetricsStore::new(2);
    store.add_metric_at("a", 1, 1);
    store.add_metric_at("a", 2, 2);
    store.add_metric_at("a", 3, 3);
    store.add_metric_at("b", 9, 9);
    assert_eq!(store.get_metric("a").unwrap().len(), 2);
    assert_eq!(store.get_metric("b").unwrap().len(), 1);
    assert!(store.get_metric("c").is_none());
}

#[test]
fn latest_and_average() {
    let mut store = MetricsStore::new(100);
    assert!(store.get_latest("m").is_none());
    store.add_metric_at("m", 1 * VALUE_UNIT, 1);
    store.add_metric_at("m", 2 * VALUE_UNIT, 2);
    store.add_metric_at("m", 4 * VALUE_UNIT, 3);
    assert_eq!(store.get_latest("m"), Some(4 * VALUE_UNIT));
    // Average of the last two samples.
    assert_eq!(store.get_average("m", 2), Some(3 * VALUE_UNIT));
    // Fewer samples than asked for: average over all of them.
    assert_eq!(store.get_average("m", 50), Some(7 * VALUE_UNIT / 3));
    assert!(store.get_average("absent", 5).is_none());
}

#[test]
fn average_truncates_toward_zero() {
    let mut store = MetricsStore::new(100);
    store.add_metric_at("m", -1, 1);
    store.add_metric_at("m", -2, 2);
    // Sum -3 over 2 samples truncates to -1, not -2.
    assert_eq!(store.get_average("m", 2), Some(-1));
}

#[test]
fn sweep_discards_old_samples_but_keeps_the_metric() {
    let mut store = MetricsStore::new(100);
    store.add_metric_at("m", 1, 1_000);
    store.add_metric_at("m", 2, 2_000);
    store.add_metric_at("m", 3, 3_000);
    store.sweep_before(2_000);
    let points = store.get_metric("m").unwrap();
    assert_eq!(points.len(), 1);
    assert_eq!(points[0], MetricDataPoint { timestamp: 3_000, value: 3 });
    // Sweeping everything away still leaves the metric known, empty.
    store.sweep_before(10_000);
    assert_eq!(store.get_metric("m").unwrap().len(), 0);
    assert!(store.get_metric_names().iter().any(|n| n == "m"));
}

#[test]
fn recent_points_caps_to_the_most_recent() {
    let mut store = MetricsStore::new(100);
    for k in 0..10_i64 {
        store.add_metric_at("m", k, k);
    }
    let capped = store.recent_points("m", Some(3));
    assert_eq!(capped.len(), 3);
    assert_eq!(capped[0].value, 7);
    assert_eq!(capped[2].value, 9);
    let all = store.recent_points("m", None);
    assert_eq!(all.len(), 10);
    assert!(store.recent_points("absent", Some(3)).is_empty());
}

#[test]
fn metric_export_is_exact_json() {
    let mut store = MetricsStore::new(10);
    store.add_metric_at("cpu", 5 * VALUE_UNIT, 100);
    store.add_metric_at("cpu", 6 * VALUE_UNIT, 200);
    let out = store.export_json().unwrap();
    assert_eq!(
        out,
        "{\"cpu\":[{\"timestamp\":100,\"value\":50000},{\"timestamp\":200,\"value\":60000}]}"
    );
    let empty = MetricsStore::new(10);
    assert_eq!(empty.export_json().unwrap(), "{}");
}

#[test]
fn metric_names_list_every_observed_metric_once() {
    let mut store = MetricsStore::new(10);
    store.add_metric_at("a", 1, 1);
    store.add_metric_at("b", 2, 2);
    store.add_metric_at("a", 3, 3);
    let mut names = store.get_metric_names();
    names.sort();
    assert_eq!(names, vec!["a".to_string(), "b".to_string()]);
}
