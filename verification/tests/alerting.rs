use skywidget::engine::AlertEngine;
use skywidget::fixed::VALUE_UNIT;
use skywidget::rules::{default_rules, parse_condition_tag, parse_severity_tag, AlertCondition,
    AlertRule, AlertSeverity};
use skywidget::snapshot::MetricsSnapshot;

fn cpu_rule(threshold_units: i64) -> AlertRule {
    AlertRule::new(
        "cpu_high".to_string(),
        "High CPU load".to_string(),
        "CPU usage above the threshold".to_string(),
        AlertCondition::CpuUsageAbove(threshold_units * VALUE_UNIT),
        AlertSeverity::Warning,
    )
}

#[test]
fn cpu_rule_triggers_strictly_above_threshold() {
    let rule = cpu_rule(80);
    let now = 1_000;

    let mut high = MetricsSnapshot::new();
    high.insert("cpu_usage", 85 * VALUE_UNIT);
    assert!(rule.should_trigger_at(&high, now));

    let mut exact = MetricsSnapshot::new();
    exact.insert("cpu_usage", 80 * VALUE_UNIT);
    assert!(!rule.should_trigger_at(&exact, now));

    let missing = MetricsSnapshot::new();
    assert!(!rule.should_trigger_at(&missing, now));
}

#[test]
fn disabled_rule_never_triggers() {
    let mut rule = cpu_rule(80);
    rule.enabled = false;
    let mut high = MetricsSnapshot::new();
    high.insert("cpu_usage", 99 * VALUE_UNIT);
    assert!(!rule.should_trigger_at(&high, 1_000));
}

#[test]
fn cooldown_blocks_and_then_releases_retrigger() {
    let rule = cpu_rule(80);
    let mut engine = AlertEngine::new(vec![rule]);
    let mut high = MetricsSnapshot::new();
    high.insert("cpu_usage", 90 * VALUE_UNIT);

    let first = engine.evaluate_at(&high, 1_000);
    assert_eq!(first.len(), 1);

    // Condition still holds, but the cooldown of 300 seconds has not elapsed.
    let second = engine.evaluate_at(&high, 1_010);
    assert_eq!(second.len(), 0);

    // Once the cooldown has elapsed, the rule may fire again.
    let third = engine.evaluate_at(&high, 1_300);
    assert_eq!(third.len(), 1);
}

#[test]
fn custom_equality_uses_epsilon() {
    let rule = AlertRule::new(
        "c".to_string(),
        "custom".to_string(),
        String::new(),
        AlertCondition::Custom {
            metric_name: "gpu_usage".to_string(),
            threshold: 50 * VALUE_UNIT,
            operator: "==".to_string(),
        },
        AlertSeverity::Info,
    );
    // 50.0004 is within the 0.001 tolerance of 50.0.
    let mut close = MetricsSnapshot::new();
    close.insert("gpu_usage", 500_004);
    assert!(rule.should_trigger_at(&close, 0));
    // 50.01 is not.
    let mut off = MetricsSnapshot::new();
    off.insert("gpu_usage", 500_100);
    assert!(!rule.should_trigger_at(&off, 0));
}

#[test]
fn custom_operators_compare_exactly() {
    let make = |op: &str| {
        AlertRule::new(
            "c".to_string(),
            "custom".to_string(),
            String::new(),
            AlertCondition::Custom {
                metric_name: "m".to_string(),
                threshold: 10 * VALUE_UNIT,
                operator: op.to_string(),
            },
            AlertSeverity::Info,
        )
    };
    let mut over = MetricsSnapshot::new();
    over.insert("m", 11 * VALUE_UNIT);
    let mut under = MetricsSnapshot::new();
    under.insert("m", 9 * VALUE_UNIT);

    assert!(make(">").should_trigger_at(&over, 0));
    assert!(!make(">").should_trigger_at(&under, 0));
    assert!(make("<").should_trigger_at(&under, 0));
    assert!(!make("<").should_trigger_at(&over, 0));
    assert!(make("!=").should_trigger_at(&over, 0));
    // An unrecognised operator never triggers.
    assert!(!make(">=").should_trigger_at(&over, 0));
}

#[test]
fn message_rendering_is_exact() {
    let rule = cpu_rule(80);
    let mut m = MetricsSnapshot::new();
    m.insert("cpu_usage", 855_000);
    assert_eq!(
        rule.generate_message(&m),
        "High CPU load: CPU usage 85.5% over 80.0%"
    );
    // A missing metric renders as zero, so a message can always be built.
    let empty = MetricsSnapshot::new();
    assert_eq!(
        rule.generate_message(&empty),
        "High CPU load: CPU usage 0.0% over 80.0%"
    );
}

#[test]
fn fan_stopped_message_counts_whole_units() {
    let rule = AlertRule::new(
        "fan_stopped".to_string(),
        "Fan stopped".to_string(),
        String::new(),
        AlertCondition::FanStopped,
        AlertSeverity::Critical,
    );
    let mut m = MetricsSnapshot::new();
    m.insert("fans_stopped_count", 2 * VALUE_UNIT);
    assert!(rule.should_trigger_at(&m, 0));
    assert_eq!(
        rule.generate_message(&m),
        "critical Fan stopped: 2 fan(s) stopped, hardware may overheat"
    );
}

#[test]
fn default_rules_shape() {
    let rules = default_rules();
    assert_eq!(rules.len(), 14);
    assert_eq!(rules[0].id, "cpu_high");
    assert_eq!(rules[13].id, "memory_errors_critical");
    for r in &rules {
        assert!(r.enabled);
        assert_eq!(r.cooldown_seconds, 300);
        assert!(r.last_triggered.is_none());
        assert!(r.notify_nodes.is_empty());
    }
    // Ids are pairwise distinct.
    for i in 0..rules.len() {
        for j in (i + 1)..rules.len() {
            assert_ne!(rules[i].id, rules[j].id);
        }
    }
}

#[test]
fn remove_and_toggle_unknown_id_are_no_ops() {
    let mut engine = AlertEngine::new(default_rules());
    let before = engine.get_rules();

    engine.remove_rule("no_such_rule");
    engine.toggle_rule("no_such_rule", false);

    let after = engine.get_rules();
    assert_eq!(before.len(), after.len());
    for (b, a) in before.iter().zip(after.iter()) {
        assert_eq!(b.id, a.id);
        assert_eq!(b.enabled, a.enabled);
    }
}

#[test]
fn remove_rule_drops_exactly_that_rule() {
    let mut engine = AlertEngine::new(default_rules());
    let n = engine.rule_count();
    engine.remove_rule("cpu_high");
    let rules = engine.get_rules();
    assert_eq!(rules.len(), n - 1);
    assert!(rules.iter().all(|r| r.id != "cpu_high"));
}

#[test]
fn toggle_rule_flips_enabled_in_place() {
    let mut engine = AlertEngine::new(default_rules());
    engine.toggle_rule("cpu_high", false);
    let rules = engine.get_rules();
    let r = rules.iter().find(|r| r.id == "cpu_high").unwrap();
    assert!(!r.enabled);

    // A disabled rule does not fire even on an extreme reading.
    let mut m = MetricsSnapshot::new();
    m.insert("cpu_usage", 99 * VALUE_UNIT);
    assert!(!r.should_trigger_at(&m, 0));
}

#[test]
fn add_rule_ignores_duplicate_ids() {
    let mut engine = AlertEngine::new(default_rules());
    let n = engine.rule_count();
    engine.add_rule(cpu_rule(10));
    assert_eq!(engine.rule_count(), n); // "cpu_high" already exists
    engine.add_rule(AlertRule::new(
        "gpu_high".to_string(),
        "High GPU load".to_string(),
        String::new(),
        AlertCondition::Custom {
            metric_name: "gpu_usage".to_string(),
            threshold: 90 * VALUE_UNIT,
            operator: ">".to_string(),
        },
        AlertSeverity::Warning,
    ));
    assert_eq!(engine.rule_count(), n + 1);
}

#[test]
fn evaluate_returns_alert_fields_and_stamps() {
    let mut engine = AlertEngine::new(vec![cpu_rule(80)]);
    let mut m = MetricsSnapshot::new();
    m.insert("cpu_usage", 95 * VALUE_UNIT);
    let alerts = engine.evaluate_at(&m, 42);
    assert_eq!(alerts.len(), 1);
    assert_eq!(alerts[0].rule_id, "cpu_high");
    assert_eq!(alerts[0].rule_name, "High CPU load");
    assert_eq!(alerts[0].severity, AlertSeverity::Warning);
    assert!(alerts[0].notify_nodes.is_empty());
    assert_eq!(
        alerts[0].message,
        "High CPU load: CPU usage 95.0% over 80.0%"
    );
    let rules = engine.get_rules();
    assert_eq!(rules[0].last_triggered, Some(42));
}

#[test]
fn condition_tags_map_onto_conditions() {
    let t = 75 * VALUE_UNIT;
    assert!(matches!(
        parse_condition_tag("cpu_usage", t),
        Ok(AlertCondition::CpuUsageAbove(v)) if v == t
    ));
    assert!(matches!(
        parse_condition_tag("memory_usage", t),
        Ok(AlertCondition::MemoryUsageAbove(_))
    ));
    assert!(matches!(
        parse_condition_tag("disk_usage", t),
        Ok(AlertCondition::DiskUsageAbove(_))
    ));
    assert!(matches!(
        parse_condition_tag("cpu_temperature", t),
        Ok(AlertCondition::CpuTemperatureAbove(_))
    ));
    assert_eq!(
        parse_condition_tag("fan_speed", t).unwrap_err(),
        "Invalid condition type"
    );
}

#[test]
fn severity_tags_map_onto_severities() {
    assert_eq!(parse_severity_tag("Info").unwrap(), AlertSeverity::Info);
    assert_eq!(parse_severity_tag("Warning").unwrap(), AlertSeverity::Warning);
    assert_eq!(parse_severity_tag("Error").unwrap(), AlertSeverity::Error);
    assert_eq!(parse_severity_tag("Critical").unwrap(), AlertSeverity::Critical);
    assert_eq!(parse_severity_tag("Fatal").unwrap_err(), "Invalid severity");
}

#[test]
fn severity_labels() {
    assert_eq!(AlertSeverity::Info.label(), "Info");
    assert_eq!(AlertSeverity::Critical.label(), "Critical");
}

#[test]
fn disk_health_warning_prefers_critical_count() {
    let rule = AlertRule::new(
        "disk_health_warning".to_string(),
        "Disk health warning".to_string(),
        String::new(),
        AlertCondition::DiskHealthWarning,
        AlertSeverity::Error,
    );
    let mut m = MetricsSnapshot::new();
    m.insert("disk_warning_count", 1 * VALUE_UNIT);
    m.insert("disk_critical_count", 2 * VALUE_UNIT);
    assert!(rule.should_trigger_at(&m, 0));
    assert_eq!(
        rule.generate_message(&m),
        "critical Disk health warning: 2 disk(s) in critical state, back up data now"
    );
    // Warning count present but zero blocks the fallback to the critical
    // count during evaluation.
    let mut odd = MetricsSnapshot::new();
    odd.insert("disk_warning_count", 0);
    odd.insert("disk_critical_count", 2 * VALUE_UNIT);
    assert!(!rule.should_trigger_at(&odd, 0));
}

use skywidget::rules::create_rule;

#[test]
fn create_rule_builds_from_tags() {
    let rule = create_rule(
        "My rule".to_string(),
        "watches the CPU".to_string(),
        "cpu_usage",
        75 * VALUE_UNIT,
        "Error",
    )
    .unwrap();
    assert_eq!(rule.name, "My rule");
    assert!(matches!(rule.condition, AlertCondition::CpuUsageAbove(v) if v == 75 * VALUE_UNIT));
    assert_eq!(rule.severity, AlertSeverity::Error);
    assert!(rule.enabled);
    assert_eq!(rule.cooldown_seconds, 300);
    assert_eq!(rule.id.len(), 36);

    assert_eq!(
        create_rule(String::new(), String::new(), "uptime", 0, "Error").unwrap_err(),
        "Invalid condition type"
    );
    assert_eq!(
        create_rule(String::new(), String::new(), "cpu_usage", 0, "Severe").unwrap_err(),
        "Invalid severity"
    );
}
