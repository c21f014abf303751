//! Alert rules.
//!
//! A rule binds a threshold condition to a severity, an enabled flag, a
//! cooldown and a fan-out target list. `should_trigger_at` decides whether a
//! rule fires against a metric snapshot at a given instant;
//! `generate_message` renders the human-readable alert text as an exact
//! function of rule and snapshot.

use vstd::prelude::*;

use crate::clock::now_seconds;
use crate::ident::fresh_id;
use crate::fixed::{spec_within_epsilon, within_epsilon, VALUE_UNIT};
use crate::numfmt::{fixed_one_decimal, fixed_whole_units, spec_dec_signed, spec_fixed_one_decimal,
    spec_whole_units};
use crate::snapshot::MetricsSnapshot;
use crate::text::{clone_string_vec, str_eq, string_eq_str};

verus! {

/// Severity of an alert, ordered from informational to critical.
#[derive(Debug, Clone, Copy, PartialEq, Eq, Structural)]
pub enum AlertSeverity {
    Info,
    Warning,
    Error,
    Critical,
}

/// The text label of a severity, as carried in notification envelopes.
pub open spec fn spec_severity_label(s: AlertSeverity) -> Seq<char> {
    match s {
        AlertSeverity::Info => "Info"@,
        AlertSeverity::Warning => "Warning"@,
        AlertSeverity::Error => "Error"@,
        AlertSeverity::Critical => "Critical"@,
    }
}

impl AlertSeverity {
    /// Renders the severity as its text label.
    pub fn label(&self) -> (r: &'static str)
        ensures
            r@ == spec_severity_label(*self),
    {
        match self {
            AlertSeverity::Info => "Info",
            AlertSeverity::Warning => "Warning",
            AlertSeverity::Error => "Error",
            AlertSeverity::Critical => "Critical",
        }
    }
}

/// A threshold condition. Each non-custom variant is bound to one well-known
/// metric name; thresholds are fixed-point metric values.
#[derive(Debug)]
pub enum AlertCondition {
    /// CPU usage percentage above the threshold.
    CpuUsageAbove(i64),
    /// Memory usage percentage above the threshold.
    MemoryUsageAbove(i64),
    /// Overall disk usage percentage above the threshold.
    DiskUsageAbove(i64),
    /// CPU temperature above the threshold.
    CpuTemperatureAbove(i64),
    /// Chipset (southbridge / PCH) temperature above the threshold.
    ChipsetTemperatureAbove(i64),
    /// At least one fan has stopped.
    FanStopped,
    /// At least one fan runs below the slow-speed threshold.
    FanSlowSpeed,
    /// Highest disk temperature above the threshold.
    DiskTemperatureAbove(i64),
    /// At least one disk reports an abnormal health state.
    DiskHealthWarning,
    /// At least one voltage reading is outside its normal range.
    VoltageAbnormal,
    /// Memory temperature above the threshold.
    MemoryTemperatureAbove(i64),
    /// Uncorrectable memory errors were observed.
    MemoryErrors,
    /// A user-defined comparison of one metric against a threshold.
    Custom { metric_name: String, threshold: i64, operator: String },
}

/// The mathematical image of an [`AlertCondition`].
pub ghost enum AlertConditionView {
    CpuUsageAbove(int),
    MemoryUsageAbove(int),
    DiskUsageAbove(int),
    CpuTemperatureAbove(int),
    ChipsetTemperatureAbove(int),
    FanStopped,
    FanSlowSpeed,
    DiskTemperatureAbove(int),
    DiskHealthWarning,
    VoltageAbnormal,
    MemoryTemperatureAbove(int),
    MemoryErrors,
    Custom { metric_name: Seq<char>, threshold: int, operator: Seq<char> },
}

impl View for AlertCondition {
    type V = AlertConditionView;

    open spec fn view(&self) -> AlertConditionView {
        match self {
            AlertCondition::CpuUsageAbove(t) => AlertConditionView::CpuUsageAbove(*t as int),
            AlertCondition::MemoryUsageAbove(t) => AlertConditionView::MemoryUsageAbove(*t as int),
            AlertCondition::DiskUsageAbove(t) => AlertConditionView::DiskUsageAbove(*t as int),
            AlertCondition::CpuTemperatureAbove(t) => AlertConditionView::CpuTemperatureAbove(
                *t as int,
            ),
            AlertCondition::ChipsetTemperatureAbove(t) => AlertConditionView::ChipsetTemperatureAbove(
                *t as int,
            ),
            AlertCondition::FanStopped => AlertConditionView::FanStopped,
            AlertCondition::FanSlowSpeed => AlertConditionView::FanSlowSpeed,
            AlertCondition::DiskTemperatureAbove(t) => AlertConditionView::DiskTemperatureAbove(
                *t as int,
            ),
            AlertCondition::DiskHealthWarning => AlertConditionView::DiskHealthWarning,
            AlertCondition::VoltageAbnormal => AlertConditionView::VoltageAbnormal,
            AlertCondition::MemoryTemperatureAbove(t) => AlertConditionView::MemoryTemperatureAbove(
                *t as int,
            ),
            AlertCondition::MemoryErrors => AlertConditionView::MemoryErrors,
            AlertCondition::Custom { metric_name, threshold, operator } => AlertConditionView::Custom {
                metric_name: metric_name@,
                threshold: *threshold as int,
                operator: operator@,
            },
        }
    }
}

impl Clone for AlertCondition {
    /// Copies the condition; the copy has the same view.
    fn clone(&self) -> (r: Self)
        ensures
            r@ == self@,
    {
        match self {
            AlertCondition::CpuUsageAbove(t) => AlertCondition::CpuUsageAbove(*t),
            AlertCondition::MemoryUsageAbove(t) => AlertCondition::MemoryUsageAbove(*t),
            AlertCondition::DiskUsageAbove(t) => AlertCondition::DiskUsageAbove(*t),
            AlertCondition::CpuTemperatureAbove(t) => AlertCondition::CpuTemperatureAbove(*t),
            AlertCondition::ChipsetTemperatureAbove(t) => AlertCondition::ChipsetTemperatureAbove(
                *t,
            ),
            AlertCondition::FanStopped => AlertCondition::FanStopped,
            AlertCondition::FanSlowSpeed => AlertCondition::FanSlowSpeed,
            AlertCondition::DiskTemperatureAbove(t) => AlertCondition::DiskTemperatureAbove(*t),
            AlertCondition::DiskHealthWarning => AlertCondition::DiskHealthWarning,
            AlertCondition::VoltageAbnormal => AlertCondition::VoltageAbnormal,
            AlertCondition::MemoryTemperatureAbove(t) => AlertCondition::MemoryTemperatureAbove(
                *t,
            ),
            AlertCondition::MemoryErrors => AlertCondition::MemoryErrors,
            AlertCondition::Custom { metric_name, threshold, operator } => AlertCondition::Custom {
                metric_name: metric_name.clone(),
                threshold: *threshold,
                operator: operator.clone(),
            },
        }
    }
}

/// An alert rule.
#[derive(Debug)]
pub struct AlertRule {
    /// Unique id of the rule within a rule set.
    pub id: String,
    /// Display name.
    pub name: String,
    /// Display description.
    pub description: String,
    /// The condition the rule tests.
    pub condition: AlertCondition,
    /// Severity of alerts raised by the rule.
    pub severity: AlertSeverity,
    /// Disabled rules never trigger.
    pub enabled: bool,
    /// Minimum time between two triggers of this rule, in seconds.
    pub cooldown_seconds: i64,
    /// When the rule last triggered, if it ever did.
    pub last_triggered: Option<i64>,
    /// Node ids to notify on trigger; empty means every known peer.
    pub notify_nodes: Vec<String>,
}

/// The mathematical image of an [`AlertRule`].
pub ghost struct AlertRuleView {
    pub id: Seq<char>,
    pub name: Seq<char>,
    pub description: Seq<char>,
    pub condition: AlertConditionView,
    pub severity: AlertSeverity,
    pub enabled: bool,
    pub cooldown_seconds: int,
    pub last_triggered: Option<int>,
    pub notify_nodes: Seq<Seq<char>>,
}

impl View for AlertRule {
    type V = AlertRuleView;

    open spec fn view(&self) -> AlertRuleView {
        AlertRuleView {
            id: self.id@,
            name: self.name@,
            description: self.description@,
            condition: self.condition@,
            severity: self.severity,
            enabled: self.enabled,
            cooldown_seconds: self.cooldown_seconds as int,
            last_triggered: match self.last_triggered {
                Some(t) => Some(t as int),
                None => None,
            },
            notify_nodes: self.notify_nodes.deep_view(),
        }
    }
}

impl Clone for AlertRule {
    /// Copies the rule; the copy has the same view.
    fn clone(&self) -> (r: Self)
        ensures
            r@ == self@,
    {
        let r = AlertRule {
            id: self.id.clone(),
            name: self.name.clone(),
            description: self.description.clone(),
            condition: self.condition.clone(),
            severity: self.severity,
            enabled: self.enabled,
            cooldown_seconds: self.cooldown_seconds,
            last_triggered: self.last_triggered,
            notify_nodes: clone_string_vec(&self.notify_nodes),
        };
        proof {
            assert(r.notify_nodes.deep_view() =~= self.notify_nodes.deep_view());
            assert(r@ =~= self@);
        }
        r
    }
}

/// The stored value of a metric, with the documented default of zero for a
/// metric absent from the snapshot.
pub open spec fn spec_metric_or_zero(m: Map<Seq<char>, i64>, key: Seq<char>) -> int {
    if m.contains_key(key) {
        m[key] as int
    } else {
        0
    }
}

/// Whether the snapshot holds `key` with a value strictly above `threshold`.
pub open spec fn spec_metric_above(m: Map<Seq<char>, i64>, key: Seq<char>, threshold: int) -> bool {
    m.contains_key(key) && m[key] > threshold
}

/// Whether a condition holds of a snapshot. A metric absent from the
/// snapshot never satisfies a condition bound to it.
pub open spec fn spec_condition_holds(c: AlertConditionView, m: Map<Seq<char>, i64>) -> bool {
    match c {
        AlertConditionView::CpuUsageAbove(t) => spec_metric_above(m, "cpu_usage"@, t),
        AlertConditionView::MemoryUsageAbove(t) => spec_metric_above(
            m,
            "memory_usage_percent"@,
            t,
        ),
        AlertConditionView::DiskUsageAbove(t) => spec_metric_above(m, "disk_usage_percent"@, t),
        AlertConditionView::CpuTemperatureAbove(t) => spec_metric_above(m, "cpu_temperature"@, t),
        AlertConditionView::ChipsetTemperatureAbove(t) => spec_metric_above(
            m,
            "chipset_temperature"@,
            t,
        ),
        AlertConditionView::FanStopped => spec_metric_above(m, "fans_stopped_count"@, 0),
        AlertConditionView::FanSlowSpeed => spec_metric_above(m, "fans_slow_speed_count"@, 0),
        AlertConditionView::DiskTemperatureAbove(t) => spec_metric_above(
            m,
            "disk_max_temperature"@,
            t,
        ),
        AlertConditionView::DiskHealthWarning => if m.contains_key("disk_warning_count"@) {
            m["disk_warning_count"@] > 0
        } else if m.contains_key("disk_critical_count"@) {
            m["disk_critical_count"@] > 0
        } else {
            false
        },
        AlertConditionView::VoltageAbnormal => spec_metric_above(m, "voltage_abnormal_count"@, 0),
        AlertConditionView::MemoryTemperatureAbove(t) => spec_metric_above(
            m,
            "memory_temperature"@,
            t,
        ),
        AlertConditionView::MemoryErrors => spec_metric_above(
            m,
            "memory_uncorrectable_errors"@,
            0,
        ),
        AlertConditionView::Custom { metric_name, threshold, operator } => m.contains_key(
            metric_name,
        ) && {
            let v = m[metric_name] as int;
            if operator == ">"@ {
                v > threshold
            } else if operator == "<"@ {
                v < threshold
            } else if operator == "=="@ {
                spec_within_epsilon(v, threshold)
            } else if operator == "!="@ {
                !spec_within_epsilon(v, threshold)
            } else {
                false
            }
        },
    }
}

/// Whether the rule's cooldown has elapsed at `now`. A rule that never
/// triggered is always ready.
pub open spec fn spec_cooldown_ready(rule: AlertRuleView, now: int) -> bool {
    match rule.last_triggered {
        Some(t) => now - t >= rule.cooldown_seconds,
        None => true,
    }
}

/// Whether a rule fires against snapshot `m` at instant `now`: it is
/// enabled, its cooldown has elapsed, and its condition holds.
pub open spec fn spec_should_trigger(rule: AlertRuleView, m: Map<Seq<char>, i64>, now: int) -> bool {
    rule.enabled && spec_cooldown_ready(rule, now) && spec_condition_holds(rule.condition, m)
}

/// Looks `key` up and compares it against `threshold` with strict `>`.
fn metric_above(m: &MetricsSnapshot, key: &str, threshold: i64) -> (r: bool)
    requires
        m.wf(),
    ensures
        r == spec_metric_above(m@, key@, threshold as int),
{
    match m.get(key) {
        Some(v) => v > threshold,
        None => false,
    }
}

/// Looks `key` up, with the documented default of zero.
fn metric_or_zero(m: &MetricsSnapshot, key: &str) -> (r: i64)
    requires
        m.wf(),
    ensures
        r as int == spec_metric_or_zero(m@, key@),
{
    match m.get(key) {
        Some(v) => v,
        None => 0,
    }
}

impl AlertCondition {
    /// Whether this condition holds of the snapshot `m`.
    pub fn holds(&self, m: &MetricsSnapshot) -> (r: bool)
        requires
            m.wf(),
        ensures
            r == spec_condition_holds(self@, m@),
    {
        match self {
            AlertCondition::CpuUsageAbove(t) => metric_above(m, "cpu_usage", *t),
            AlertCondition::MemoryUsageAbove(t) => metric_above(m, "memory_usage_percent", *t),
            AlertCondition::DiskUsageAbove(t) => metric_above(m, "disk_usage_percent", *t),
            AlertCondition::CpuTemperatureAbove(t) => metric_above(m, "cpu_temperature", *t),
            AlertCondition::ChipsetTemperatureAbove(t) => metric_above(
                m,
                "chipset_temperature",
                *t,
            ),
            AlertCondition::FanStopped => metric_above(m, "fans_stopped_count", 0),
            AlertCondition::FanSlowSpeed => metric_above(m, "fans_slow_speed_count", 0),
            AlertCondition::DiskTemperatureAbove(t) => metric_above(m, "disk_max_temperature", *t),
            AlertCondition::DiskHealthWarning => {
                match m.get("disk_warning_count") {
                    Some(w) => w > 0,
                    None => match m.get("disk_critical_count") {
                        Some(c) => c > 0,
                        None => false,
                    },
                }
            },
            AlertCondition::VoltageAbnormal => metric_above(m, "voltage_abnormal_count", 0),
            AlertCondition::MemoryTemperatureAbove(t) => metric_above(m, "memory_temperature", *t),
            AlertCondition::MemoryErrors => metric_above(m, "memory_uncorrectable_errors", 0),
            AlertCondition::Custom { metric_name, threshold, operator } => {
                match m.get(metric_name.as_str()) {
                    Some(v) => {
                        if string_eq_str(operator, ">") {
                            v > *threshold
                        } else if string_eq_str(operator, "<") {
                            v < *threshold
                        } else if string_eq_str(operator, "==") {
                            within_epsilon(v, *threshold)
                        } else if string_eq_str(operator, "!=") {
                            !within_epsilon(v, *threshold)
                        } else {
                            false
                        }
                    },
                    None => false,
                }
            },
        }
    }
}

impl AlertRule {
    /// Creates an enabled rule with the default cooldown of five minutes, no
    /// recorded trigger, and broadcast fan-out.
    pub fn new(
        id: String,
        name: String,
        description: String,
        condition: AlertCondition,
        severity: AlertSeverity,
    ) -> (r: AlertRule)
        ensures
            r@ == (AlertRuleView {
                id: id@,
                name: name@,
                description: description@,
                condition: condition@,
                severity,
                enabled: true,
                cooldown_seconds: 300,
                last_triggered: None,
                notify_nodes: Seq::empty(),
            }),
    {
        let r = AlertRule {
            id,
            name,
            description,
            condition,
            severity,
            enabled: true,
            cooldown_seconds: 300,
            last_triggered: None,
            notify_nodes: Vec::new(),
        };
        proof {
            assert(r.notify_nodes.deep_view() =~= Seq::<Seq<char>>::empty());
        }
        r
    }

    /// Whether the rule fires against snapshot `m` at instant `now`.
    pub fn should_trigger_at(&self, m: &MetricsSnapshot, now: i64) -> (r: bool)
        requires
            m.wf(),
        ensures
            r == spec_should_trigger(self@, m@, now as int),
    {
        if !self.enabled {
            return false;
        }
        if let Some(t) = self.last_triggered {
            if (now as i128) - (t as i128) < (self.cooldown_seconds as i128) {
                return false;
            }
        }
        self.condition.holds(m)
    }

    /// Whether the rule fires against snapshot `m` now, by the system clock.
    pub fn should_trigger(&self, m: &MetricsSnapshot) -> (r: bool)
        requires
            m.wf(),
        ensures
            exists|now: int| r == #[trigger] spec_should_trigger(self@, m@, now),
    {
        let now: i64 = now_seconds();
        let r = self.should_trigger_at(m, now);
        proof {
            assert(r == spec_should_trigger(self@, m@, now as int));
        }
        r
    }

    /// Records a trigger at instant `now`; every other field is unchanged.
    pub fn mark_triggered_at(&mut self, now: i64)
        ensures
            final(self)@ == (AlertRuleView { last_triggered: Some(now as int), ..old(self)@ }),
    {
        self.last_triggered = Some(now);
    }

    /// Records a trigger at the current system time.
    pub fn mark_triggered(&mut self)
        ensures
            final(self)@.last_triggered is Some,
            final(self)@ == (AlertRuleView {
                last_triggered: final(self)@.last_triggered,
                ..old(self)@
            }),
    {
        let now: i64 = now_seconds();
        self.mark_triggered_at(now);
    }
}

/// The rendered message of a rule firing (or rendered for display) against
/// snapshot `m`. Metric values absent from the snapshot render as zero, so a
/// message can always be produced. Values are shown with one decimal place,
/// truncated; counts are shown in whole units, truncated toward zero.
pub open spec fn spec_generate_message(rule: AlertRuleView, m: Map<Seq<char>, i64>) -> Seq<char> {
    match rule.condition {
        AlertConditionView::CpuUsageAbove(t) => rule.name + ": CPU usage "@
            + spec_fixed_one_decimal(spec_metric_or_zero(m, "cpu_usage"@)) + "% over "@
            + spec_fixed_one_decimal(t) + "%"@,
        AlertConditionView::MemoryUsageAbove(t) => rule.name + ": memory usage "@
            + spec_fixed_one_decimal(spec_metric_or_zero(m, "memory_usage_percent"@)) + "% over "@
            + spec_fixed_one_decimal(t) + "%"@,
        AlertConditionView::DiskUsageAbove(t) => rule.name + ": disk usage "@
            + spec_fixed_one_decimal(spec_metric_or_zero(m, "disk_usage_percent"@)) + "% over "@
            + spec_fixed_one_decimal(t) + "%"@,
        AlertConditionView::CpuTemperatureAbove(t) => rule.name + ": CPU temperature "@
            + spec_fixed_one_decimal(spec_metric_or_zero(m, "cpu_temperature"@)) + " C over "@
            + spec_fixed_one_decimal(t) + " C"@,
        AlertConditionView::ChipsetTemperatureAbove(t) => "warning "@ + rule.name
            + ": chipset temperature "@
            + spec_fixed_one_decimal(spec_metric_or_zero(m, "chipset_temperature"@)) + " C over "@
            + spec_fixed_one_decimal(t) + " C, risk of disk dropouts"@,
        AlertConditionView::FanStopped => "critical "@ + rule.name + ": "@
            + spec_dec_signed(spec_whole_units(spec_metric_or_zero(m, "fans_stopped_count"@)))
            + " fan(s) stopped, hardware may overheat"@,
        AlertConditionView::FanSlowSpeed => "warning "@ + rule.name + ": "@
            + spec_dec_signed(spec_whole_units(spec_metric_or_zero(m, "fans_slow_speed_count"@)))
            + " fan(s) running slow"@,
        AlertConditionView::DiskTemperatureAbove(t) => "warning "@ + rule.name
            + ": disk temperature "@
            + spec_fixed_one_decimal(spec_metric_or_zero(m, "disk_max_temperature"@)) + " C over "@
            + spec_fixed_one_decimal(t) + " C"@,
        AlertConditionView::DiskHealthWarning => {
            let w = spec_metric_or_zero(m, "disk_warning_count"@);
            let c = spec_metric_or_zero(m, "disk_critical_count"@);
            if spec_whole_units(c) > 0 {
                "critical "@ + rule.name + ": "@ + spec_dec_signed(spec_whole_units(c))
                    + " disk(s) in critical state, back up data now"@
            } else {
                "warning "@ + rule.name + ": "@ + spec_dec_signed(spec_whole_units(w))
                    + " disk(s) report health warnings"@
            }
        },
        AlertConditionView::VoltageAbnormal => "warning "@ + rule.name + ": "@
            + spec_dec_signed(spec_whole_units(spec_metric_or_zero(m, "voltage_abnormal_count"@)))
            + " voltage reading(s) out of range"@,
        AlertConditionView::MemoryTemperatureAbove(t) => "warning "@ + rule.name
            + ": memory temperature "@
            + spec_fixed_one_decimal(spec_metric_or_zero(m, "memory_temperature"@)) + " C over "@
            + spec_fixed_one_decimal(t) + " C"@,
        AlertConditionView::MemoryErrors => "critical "@ + rule.name + ": "@
            + spec_dec_signed(spec_whole_units(spec_metric_or_zero(
            m,
            "memory_uncorrectable_errors"@,
        ))) + " uncorrectable memory error(s)"@,
        AlertConditionView::Custom { metric_name, .. } => rule.name + ": custom metric "@
            + metric_name + " triggered an alert"@,
    }
}

/// Builds `prefix + name + mid + value + joiner + threshold + suffix` with
/// both numbers rendered to one decimal place.
fn build_threshold_msg(
    prefix: &'static str,
    name: &String,
    mid: &'static str,
    value: i64,
    joiner: &'static str,
    threshold: i64,
    suffix: &'static str,
) -> (s: String)
    ensures
        s@ == prefix@ + name@ + mid@ + spec_fixed_one_decimal(value as int) + joiner@
            + spec_fixed_one_decimal(threshold as int) + suffix@,
{
    let mut s: String = prefix.to_owned();
    s.append(name.as_str());
    s.append(mid);
    let v = fixed_one_decimal(value);
    s.append(v.as_str());
    s.append(joiner);
    let t = fixed_one_decimal(threshold);
    s.append(t.as_str());
    s.append(suffix);
    proof {
        assert(s@ =~= prefix@ + name@ + mid@ + spec_fixed_one_decimal(value as int) + joiner@
            + spec_fixed_one_decimal(threshold as int) + suffix@);
    }
    s
}

/// Builds `prefix + name + mid + count + suffix` with the count rendered in
/// whole units.
fn build_count_msg(
    prefix: &'static str,
    name: &String,
    mid: &'static str,
    count: i64,
    suffix: &'static str,
) -> (s: String)
    ensures
        s@ == prefix@ + name@ + mid@ + spec_dec_signed(spec_whole_units(count as int)) + suffix@,
{
    let mut s: String = prefix.to_owned();
    s.append(name.as_str());
    s.append(mid);
    let c = fixed_whole_units(count);
    s.append(c.as_str());
    s.append(suffix);
    proof {
        assert(s@ =~= prefix@ + name@ + mid@ + spec_dec_signed(spec_whole_units(count as int))
            + suffix@);
    }
    s
}

impl AlertRule {
    /// Renders the alert message for this rule against snapshot `m`.
    pub fn generate_message(&self, m: &MetricsSnapshot) -> (s: String)
        requires
            m.wf(),
        ensures
            s@ == spec_generate_message(self@, m@),
    {
        let s: String = match &self.condition {
            AlertCondition::CpuUsageAbove(t) => build_threshold_msg(
                "",
                &self.name,
                ": CPU usage ",
                metric_or_zero(m, "cpu_usage"),
                "% over ",
                *t,
                "%",
            ),
            AlertCondition::MemoryUsageAbove(t) => build_threshold_msg(
                "",
                &self.name,
                ": memory usage ",
                metric_or_zero(m, "memory_usage_percent"),
                "% over ",
                *t,
                "%",
            ),
            AlertCondition::DiskUsageAbove(t) => build_threshold_msg(
                "",
                &self.name,
                ": disk usage ",
                metric_or_zero(m, "disk_usage_percent"),
                "% over ",
                *t,
                "%",
            ),
            AlertCondition::CpuTemperatureAbove(t) => build_threshold_msg(
                "",
                &self.name,
                ": CPU temperature ",
                metric_or_zero(m, "cpu_temperature"),
                " C over ",
                *t,
                " C",
            ),
            AlertCondition::ChipsetTemperatureAbove(t) => build_threshold_msg(
                "warning ",
                &self.name,
                ": chipset temperature ",
                metric_or_zero(m, "chipset_temperature"),
                " C over ",
                *t,
                " C, risk of disk dropouts",
            ),
            AlertCondition::FanStopped => build_count_msg(
                "critical ",
                &self.name,
                ": ",
                metric_or_zero(m, "fans_stopped_count"),
                " fan(s) stopped, hardware may overheat",
            ),
            AlertCondition::FanSlowSpeed => build_count_msg(
                "warning ",
                &self.name,
                ": ",
                metric_or_zero(m, "fans_slow_speed_count"),
                " fan(s) running slow",
            ),
            AlertCondition::DiskTemperatureAbove(t) => build_threshold_msg(
                "warning ",
                &self.name,
                ": disk temperature ",
                metric_or_zero(m, "disk_max_temperature"),
                " C over ",
                *t,
                " C",
            ),
            AlertCondition::DiskHealthWarning => {
                let w: i64 = metric_or_zero(m, "disk_warning_count");
                let c: i64 = metric_or_zero(m, "disk_critical_count");
                let c_whole: i64 = if c < 0 {
                    -(((-(c as i128)) / (VALUE_UNIT as i128)) as i64)
                } else {
                    c / VALUE_UNIT
                };
                proof {
                    assert(c_whole as int == spec_whole_units(c as int));
                }
                if c_whole > 0 {
                    build_count_msg(
                        "critical ",
                        &self.name,
                        ": ",
                        c,
                        " disk(s) in critical state, back up data now",
                    )
                } else {
                    build_count_msg(
                        "warning ",
                        &self.name,
                        ": ",
                        w,
                        " disk(s) report health warnings",
                    )
                }
            },
            AlertCondition::VoltageAbnormal => build_count_msg(
                "warning ",
                &self.name,
                ": ",
                metric_or_zero(m, "voltage_abnormal_count"),
                " voltage reading(s) out of range",
            ),
            AlertCondition::MemoryTemperatureAbove(t) => build_threshold_msg(
                "warning ",
                &self.name,
                ": memory temperature ",
                metric_or_zero(m, "memory_temperature"),
                " C over ",
                *t,
                " C",
            ),
            AlertCondition::MemoryErrors => build_count_msg(
                "critical ",
                &self.name,
                ": ",
                metric_or_zero(m, "memory_uncorrectable_errors"),
                " uncorrectable memory error(s)",
            ),
            AlertCondition::Custom { metric_name, .. } => {
                let mut b: String = self.name.clone();
                b.append(": custom metric ");
                b.append(metric_name.as_str());
                b.append(" triggered an alert");
                b
            },
        };
        proof {
            reveal_strlit("");
            assert(s@ =~= spec_generate_message(self@, m@));
        }
        s
    }
}

/// The view a freshly created rule has.
pub open spec fn spec_new_rule(
    id: Seq<char>,
    name: Seq<char>,
    description: Seq<char>,
    condition: AlertConditionView,
    severity: AlertSeverity,
) -> AlertRuleView {
    AlertRuleView {
        id,
        name,
        description,
        condition,
        severity,
        enabled: true,
        cooldown_seconds: 300,
        last_triggered: None,
        notify_nodes: Seq::empty(),
    }
}

/// The built-in rule set.
pub open spec fn spec_default_rules() -> Seq<AlertRuleView> {
    seq![
        spec_new_rule(
            "cpu_high"@,
            "High CPU load"@,
            "CPU usage above 80%"@,
            AlertConditionView::CpuUsageAbove(80 * VALUE_UNIT as int),
            AlertSeverity::Warning,
        ),
        spec_new_rule(
            "cpu_critical"@,
            "Critical CPU load"@,
            "CPU usage above 95%"@,
            AlertConditionView::CpuUsageAbove(95 * VALUE_UNIT as int),
            AlertSeverity::Critical,
        ),
        spec_new_rule(
            "memory_high"@,
            "High memory load"@,
            "Memory usage above 85%"@,
            AlertConditionView::MemoryUsageAbove(85 * VALUE_UNIT as int),
            AlertSeverity::Warning,
        ),
        spec_new_rule(
            "disk_high"@,
            "High disk usage"@,
            "Disk usage above 90%"@,
            AlertConditionView::DiskUsageAbove(90 * VALUE_UNIT as int),
            AlertSeverity::Warning,
        ),
        spec_new_rule(
            "chipset_warning"@,
            "Chipset temperature warning"@,
            "Chipset temperature above 60 C"@,
            AlertConditionView::ChipsetTemperatureAbove(60 * VALUE_UNIT as int),
            AlertSeverity::Warning,
        ),
        spec_new_rule(
            "chipset_critical"@,
            "Chipset temperature critical"@,
            "Chipset temperature above 70 C"@,
            AlertConditionView::ChipsetTemperatureAbove(70 * VALUE_UNIT as int),
            AlertSeverity::Critical,
        ),
        spec_new_rule(
            "fan_stopped"@,
            "Fan stopped"@,
            "A fan has stopped; hardware may overheat"@,
            AlertConditionView::FanStopped,
            AlertSeverity::Critical,
        ),
        spec_new_rule(
            "fan_slow_speed"@,
            "Fan running slow"@,
            "A fan runs below the slow-speed threshold"@,
            AlertConditionView::FanSlowSpeed,
            AlertSeverity::Warning,
        ),
        spec_new_rule(
            "nvme_temp_high"@,
            "Disk temperature high"@,
            "NVMe/SSD temperature above 70 C"@,
            AlertConditionView::DiskTemperatureAbove(70 * VALUE_UNIT as int),
            AlertSeverity::Warning,
        ),
        spec_new_rule(
            "nvme_temp_critical"@,
            "Disk temperature critical"@,
            "NVMe/SSD temperature above 80 C"@,
            AlertConditionView::DiskTemperatureAbove(80 * VALUE_UNIT as int),
            AlertSeverity::Critical,
        ),
        spec_new_rule(
            "disk_health_warning"@,
            "Disk health warning"@,
            "A disk reports an abnormal SMART state"@,
            AlertConditionView::DiskHealthWarning,
            AlertSeverity::Error,
        ),
        spec_new_rule(
            "voltage_abnormal"@,
            "Voltage abnormal"@,
            "A voltage reading is outside its normal range"@,
            AlertConditionView::VoltageAbnormal,
            AlertSeverity::Warning,
        ),
        spec_new_rule(
            "memory_temp_high"@,
            "Memory temperature high"@,
            "Memory temperature above 75 C"@,
            AlertConditionView::MemoryTemperatureAbove(75 * VALUE_UNIT as int),
            AlertSeverity::Warning,
        ),
        spec_new_rule(
            "memory_errors_critical"@,
            "Memory errors critical"@,
            "Uncorrectable memory errors detected"@,
            AlertConditionView::MemoryErrors,
            AlertSeverity::Critical,
        ),
    ]
}

/// The ids of the built-in rules are pairwise distinct.
#[verifier::rlimit(50)]
pub proof fn lemma_default_rule_ids_distinct()
    ensures
        forall|i: int, j: int|
            0 <= i < j < spec_default_rules().len()
                ==> #[trigger] spec_default_rules()[i].id != #[trigger] spec_default_rules()[j].id,
{
    reveal_strlit("cpu_high");
    reveal_strlit("cpu_critical");
    reveal_strlit("memory_high");
    reveal_strlit("disk_high");
    reveal_strlit("chipset_warning");
    reveal_strlit("chipset_critical");
    reveal_strlit("fan_stopped");
    reveal_strlit("fan_slow_speed");
    reveal_strlit("nvme_temp_high");
    reveal_strlit("nvme_temp_critical");
    reveal_strlit("disk_health_warning");
    reveal_strlit("voltage_abnormal");
    reveal_strlit("memory_temp_high");
    reveal_strlit("memory_errors_critical");
    assert("cpu_high"@.len() == 8 && "cpu_high"@[0] == 'c');
    assert("cpu_critical"@.len() == 12 && "cpu_critical"@[0] == 'c');
    assert("memory_high"@.len() == 11 && "memory_high"@[0] == 'm');
    assert("disk_high"@.len() == 9 && "disk_high"@[0] == 'd');
    assert("chipset_warning"@.len() == 15 && "chipset_warning"@[0] == 'c');
    assert("chipset_critical"@.len() == 16 && "chipset_critical"@[0] == 'c');
    assert("fan_stopped"@.len() == 11 && "fan_stopped"@[0] == 'f');
    assert("fan_slow_speed"@.len() == 14 && "fan_slow_speed"@[0] == 'f');
    assert("nvme_temp_high"@.len() == 14 && "nvme_temp_high"@[0] == 'n');
    assert("nvme_temp_critical"@.len() == 18 && "nvme_temp_critical"@[0] == 'n');
    assert("disk_health_warning"@.len() == 19 && "disk_health_warning"@[0] == 'd');
    assert("voltage_abnormal"@.len() == 16 && "voltage_abnormal"@[0] == 'v');
    assert("memory_temp_high"@.len() == 16 && "memory_temp_high"@[0] == 'm');
    assert("memory_errors_critical"@.len() == 22 && "memory_errors_critical"@[0] == 'm');
    assert("cpu_high"@ != "cpu_critical"@);
    assert("cpu_high"@ != "memory_high"@);
    assert("cpu_high"@ != "disk_high"@);
    assert("cpu_high"@ != "chipset_warning"@);
    assert("cpu_high"@ != "chipset_critical"@);
    assert("cpu_high"@ != "fan_stopped"@);
    assert("cpu_high"@ != "fan_slow_speed"@);
    assert("cpu_high"@ != "nvme_temp_high"@);
    assert("cpu_high"@ != "nvme_temp_critical"@);
    assert("cpu_high"@ != "disk_health_warning"@);
    assert("cpu_high"@ != "voltage_abnormal"@);
    assert("cpu_high"@ != "memory_temp_high"@);
    assert("cpu_high"@ != "memory_errors_critical"@);
    assert("cpu_critical"@ != "memory_high"@);
    assert("cpu_critical"@ != "disk_high"@);
    assert("cpu_critical"@ != "chipset_warning"@);
    assert("cpu_critical"@ != "chipset_critical"@);
    assert("cpu_critical"@ != "fan_stopped"@);
    assert("cpu_critical"@ != "fan_slow_speed"@);
    assert("cpu_critical"@ != "nvme_temp_high"@);
    assert("cpu_critical"@ != "nvme_temp_critical"@);
    assert("cpu_critical"@ != "disk_health_warning"@);
    assert("cpu_critical"@ != "voltage_abnormal"@);
    assert("cpu_critical"@ != "memory_temp_high"@);
    assert("cpu_critical"@ != "memory_errors_critical"@);
    assert("memory_high"@ != "disk_high"@);
    assert("memory_high"@ != "chipset_warning"@);
    assert("memory_high"@ != "chipset_critical"@);
    assert("memory_high"@ != "fan_stopped"@);
    assert("memory_high"@ != "fan_slow_speed"@);
    assert("memory_high"@ != "nvme_temp_high"@);
    assert("memory_high"@ != "nvme_temp_critical"@);
    assert("memory_high"@ != "disk_health_warning"@);
    assert("memory_high"@ != "voltage_abnormal"@);
    assert("memory_high"@ != "memory_temp_high"@);
    assert("memory_high"@ != "memory_errors_critical"@);
    assert("disk_high"@ != "chipset_warning"@);
    assert("disk_high"@ != "chipset_critical"@);
    assert("disk_high"@ != "fan_stopped"@);
    assert("disk_high"@ != "fan_slow_speed"@);
    assert("disk_high"@ != "nvme_temp_high"@);
    assert("disk_high"@ != "nvme_temp_critical"@);
    assert("disk_high"@ != "disk_health_warning"@);
    assert("disk_high"@ != "voltage_abnormal"@);
    assert("disk_high"@ != "memory_temp_high"@);
    assert("disk_high"@ != "memory_errors_critical"@);
    assert("chipset_warning"@ != "chipset_critical"@);
    assert("chipset_warning"@ != "fan_stopped"@);
    assert("chipset_warning"@ != "fan_slow_speed"@);
    assert("chipset_warning"@ != "nvme_temp_high"@);
    assert("chipset_warning"@ != "nvme_temp_critical"@);
    assert("chipset_warning"@ != "disk_health_warning"@);
    assert("chipset_warning"@ != "voltage_abnormal"@);
    assert("chipset_warning"@ != "memory_temp_high"@);
    assert("chipset_warning"@ != "memory_errors_critical"@);
    assert("chipset_critical"@ != "fan_stopped"@);
    assert("chipset_critical"@ != "fan_slow_speed"@);
    assert("chipset_critical"@ != "nvme_temp_high"@);
    assert("chipset_critical"@ != "nvme_temp_critical"@);
    assert("chipset_critical"@ != "disk_health_warning"@);
    assert("chipset_critical"@ != "voltage_abnormal"@);
    assert("chipset_critical"@ != "memory_temp_high"@);
    assert("chipset_critical"@ != "memory_errors_critical"@);
    assert("fan_stopped"@ != "fan_slow_speed"@);
    assert("fan_stopped"@ != "nvme_temp_high"@);
    assert("fan_stopped"@ != "nvme_temp_critical"@);
    assert("fan_stopped"@ != "disk_health_warning"@);
    assert("fan_stopped"@ != "voltage_abnormal"@);
    assert("fan_stopped"@ != "memory_temp_high"@);
    assert("fan_stopped"@ != "memory_errors_critical"@);
    assert("fan_slow_speed"@ != "nvme_temp_high"@);
    assert("fan_slow_speed"@ != "nvme_temp_critical"@);
    assert("fan_slow_speed"@ != "disk_health_warning"@);
    assert("fan_slow_speed"@ != "voltage_abnormal"@);
    assert("fan_slow_speed"@ != "memory_temp_high"@);
    assert("fan_slow_speed"@ != "memory_errors_critical"@);
    assert("nvme_temp_high"@ != "nvme_temp_critical"@);
    assert("nvme_temp_high"@ != "disk_health_warning"@);
    assert("nvme_temp_high"@ != "voltage_abnormal"@);
    assert("nvme_temp_high"@ != "memory_temp_high"@);
    assert("nvme_temp_high"@ != "memory_errors_critical"@);
    assert("nvme_temp_critical"@ != "disk_health_warning"@);
    assert("nvme_temp_critical"@ != "voltage_abnormal"@);
    assert("nvme_temp_critical"@ != "memory_temp_high"@);
    assert("nvme_temp_critical"@ != "memory_errors_critical"@);
    assert("disk_health_warning"@ != "voltage_abnormal"@);
    assert("disk_health_warning"@ != "memory_temp_high"@);
    assert("disk_health_warning"@ != "memory_errors_critical"@);
    assert("voltage_abnormal"@ != "memory_temp_high"@);
    assert("voltage_abnormal"@ != "memory_errors_critical"@);
    assert("memory_temp_high"@ != "memory_errors_critical"@);
    assert forall|i: int, j: int|
        0 <= i < j < spec_default_rules().len() implies #[trigger] spec_default_rules()[i].id
        != #[trigger] spec_default_rules()[j].id by {
        assert(spec_default_rules()[i].id != spec_default_rules()[j].id);
    }
}

/// Builds the built-in rule set.
pub fn default_rules() -> (r: Vec<AlertRule>)
    ensures
        r@.len() == spec_default_rules().len(),
        forall|i: int| 0 <= i < r@.len() ==> #[trigger] r@[i]@ == spec_default_rules()[i],
{
    let mut r: Vec<AlertRule> = Vec::new();
    r.push(AlertRule::new(
        "cpu_high".to_owned(),
        "High CPU load".to_owned(),
        "CPU usage above 80%".to_owned(),
        AlertCondition::CpuUsageAbove(80 * VALUE_UNIT),
        AlertSeverity::Warning,
    ));
    r.push(AlertRule::new(
        "cpu_critical".to_owned(),
        "Critical CPU load".to_owned(),
        "CPU usage above 95%".to_owned(),
        AlertCondition::CpuUsageAbove(95 * VALUE_UNIT),
        AlertSeverity::Critical,
    ));
    r.push(AlertRule::new(
        "memory_high".to_owned(),
        "High memory load".to_owned(),
        "Memory usage above 85%".to_owned(),
        AlertCondition::MemoryUsageAbove(85 * VALUE_UNIT),
        AlertSeverity::Warning,
    ));
    r.push(AlertRule::new(
        "disk_high".to_owned(),
        "High disk usage".to_owned(),
        "Disk usage above 90%".to_owned(),
        AlertCondition::DiskUsageAbove(90 * VALUE_UNIT),
        AlertSeverity::Warning,
    ));
    r.push(AlertRule::new(
        "chipset_warning".to_owned(),
        "Chipset temperature warning".to_owned(),
        "Chipset temperature above 60 C".to_owned(),
        AlertCondition::ChipsetTemperatureAbove(60 * VALUE_UNIT),
        AlertSeverity::Warning,
    ));
    r.push(AlertRule::new(
        "chipset_critical".to_owned(),
        "Chipset temperature critical".to_owned(),
        "Chipset temperature above 70 C".to_owned(),
        AlertCondition::ChipsetTemperatureAbove(70 * VALUE_UNIT),
        AlertSeverity::Critical,
    ));
    r.push(AlertRule::new(
        "fan_stopped".to_owned(),
        "Fan stopped".to_owned(),
        "A fan has stopped; hardware may overheat".to_owned(),
        AlertCondition::FanStopped,
        AlertSeverity::Critical,
    ));
    r.push(AlertRule::new(
        "fan_slow_speed".to_owned(),
        "Fan running slow".to_owned(),
        "A fan runs below the slow-speed threshold".to_owned(),
        AlertCondition::FanSlowSpeed,
        AlertSeverity::Warning,
    ));
    r.push(AlertRule::new(
        "nvme_temp_high".to_owned(),
        "Disk temperature high".to_owned(),
        "NVMe/SSD temperature above 70 C".to_owned(),
        AlertCondition::DiskTemperatureAbove(70 * VALUE_UNIT),
        AlertSeverity::Warning,
    ));
    r.push(AlertRule::new(
        "nvme_temp_critical".to_owned(),
        "Disk temperature critical".to_owned(),
        "NVMe/SSD temperature above 80 C".to_owned(),
        AlertCondition::DiskTemperatureAbove(80 * VALUE_UNIT),
        AlertSeverity::Critical,
    ));
    r.push(AlertRule::new(
        "disk_health_warning".to_owned(),
        "Disk health warning".to_owned(),
        "A disk reports an abnormal SMART state".to_owned(),
        AlertCondition::DiskHealthWarning,
        AlertSeverity::Error,
    ));
    r.push(AlertRule::new(
        "voltage_abnormal".to_owned(),
        "Voltage abnormal".to_owned(),
        "A voltage reading is outside its normal range".to_owned(),
        AlertCondition::VoltageAbnormal,
        AlertSeverity::Warning,
    ));
    r.push(AlertRule::new(
        "memory_temp_high".to_owned(),
        "Memory temperature high".to_owned(),
        "Memory temperature above 75 C".to_owned(),
        AlertCondition::MemoryTemperatureAbove(75 * VALUE_UNIT),
        AlertSeverity::Warning,
    ));
    r.push(AlertRule::new(
        "memory_errors_critical".to_owned(),
        "Memory errors critical".to_owned(),
        "Uncorrectable memory errors detected".to_owned(),
        AlertCondition::MemoryErrors,
        AlertSeverity::Critical,
    ));
    r
}

/// Maps a condition-type tag and a threshold onto a condition. Exactly the
/// tags `cpu_usage`, `memory_usage`, `disk_usage` and `cpu_temperature` are
/// recognised; any other tag is a configuration error.
pub fn parse_condition_tag(tag: &str, threshold: i64) -> (r: Result<AlertCondition, String>)
    ensures
        tag@ == "cpu_usage"@ ==> (r matches Ok(c) && c@ == AlertConditionView::CpuUsageAbove(
            threshold as int,
        )),
        tag@ == "memory_usage"@ ==> (r matches Ok(c) && c@
            == AlertConditionView::MemoryUsageAbove(threshold as int)),
        tag@ == "disk_usage"@ ==> (r matches Ok(c) && c@ == AlertConditionView::DiskUsageAbove(
            threshold as int,
        )),
        tag@ == "cpu_temperature"@ ==> (r matches Ok(c) && c@
            == AlertConditionView::CpuTemperatureAbove(threshold as int)),
        (tag@ != "cpu_usage"@ && tag@ != "memory_usage"@ && tag@ != "disk_usage"@ && tag@
            != "cpu_temperature"@) ==> (r matches Err(e) && e@ == "Invalid condition type"@),
{
    proof {
        reveal_strlit("cpu_usage");
        reveal_strlit("memory_usage");
        reveal_strlit("disk_usage");
        reveal_strlit("cpu_temperature");
        assert("cpu_usage"@.len() == 9);
        assert("memory_usage"@.len() == 12);
        assert("disk_usage"@.len() == 10);
        assert("cpu_temperature"@.len() == 15);
    }
    if str_eq(tag, "cpu_usage") {
        Ok(AlertCondition::CpuUsageAbove(threshold))
    } else if str_eq(tag, "memory_usage") {
        Ok(AlertCondition::MemoryUsageAbove(threshold))
    } else if str_eq(tag, "disk_usage") {
        Ok(AlertCondition::DiskUsageAbove(threshold))
    } else if str_eq(tag, "cpu_temperature") {
        Ok(AlertCondition::CpuTemperatureAbove(threshold))
    } else {
        Err("Invalid condition type".to_owned())
    }
}

/// Maps a severity tag onto a severity. Exactly the four severity names are
/// recognised; any other tag is a configuration error.
pub fn parse_severity_tag(tag: &str) -> (r: Result<AlertSeverity, String>)
    ensures
        tag@ == "Info"@ ==> r == Result::<AlertSeverity, String>::Ok(AlertSeverity::Info),
        tag@ == "Warning"@ ==> r == Result::<AlertSeverity, String>::Ok(AlertSeverity::Warning),
        tag@ == "Error"@ ==> r == Result::<AlertSeverity, String>::Ok(AlertSeverity::Error),
        tag@ == "Critical"@ ==> r == Result::<AlertSeverity, String>::Ok(AlertSeverity::Critical),
        (tag@ != "Info"@ && tag@ != "Warning"@ && tag@ != "Error"@ && tag@ != "Critical"@)
            ==> (r matches Err(e) && e@ == "Invalid severity"@),
{
    proof {
        reveal_strlit("Info");
        reveal_strlit("Warning");
        reveal_strlit("Error");
        reveal_strlit("Critical");
        assert("Info"@.len() == 4);
        assert("Warning"@.len() == 7);
        assert("Error"@.len() == 5);
        assert("Critical"@.len() == 8);
    }
    if str_eq(tag, "Info") {
        Ok(AlertSeverity::Info)
    } else if str_eq(tag, "Warning") {
        Ok(AlertSeverity::Warning)
    } else if str_eq(tag, "Error") {
        Ok(AlertSeverity::Error)
    } else if str_eq(tag, "Critical") {
        Ok(AlertSeverity::Critical)
    } else {
        Err("Invalid severity".to_owned())
    }
}

/// The condition a condition-type tag names, if any.
pub open spec fn spec_condition_of_tag(tag: Seq<char>, threshold: int) -> Option<
    AlertConditionView,
> {
    if tag == "cpu_usage"@ {
        Some(AlertConditionView::CpuUsageAbove(threshold))
    } else if tag == "memory_usage"@ {
        Some(AlertConditionView::MemoryUsageAbove(threshold))
    } else if tag == "disk_usage"@ {
        Some(AlertConditionView::DiskUsageAbove(threshold))
    } else if tag == "cpu_temperature"@ {
        Some(AlertConditionView::CpuTemperatureAbove(threshold))
    } else {
        None
    }
}

/// The severity a severity tag names, if any.
pub open spec fn spec_severity_of_tag(tag: Seq<char>) -> Option<AlertSeverity> {
    if tag == "Info"@ {
        Some(AlertSeverity::Info)
    } else if tag == "Warning"@ {
        Some(AlertSeverity::Warning)
    } else if tag == "Error"@ {
        Some(AlertSeverity::Error)
    } else if tag == "Critical"@ {
        Some(AlertSeverity::Critical)
    } else {
        None
    }
}

/// Builds a rule from the command surface's plain arguments: a
/// condition-type tag, a fixed-point threshold and a severity tag, with a
/// generated id. An unrecognised condition tag is rejected first, then an
/// unrecognised severity tag; no rule is created then.
pub fn create_rule(
    name: String,
    description: String,
    condition_type: &str,
    threshold: i64,
    severity: &str,
) -> (r: Result<AlertRule, String>)
    ensures
        spec_condition_of_tag(condition_type@, threshold as int) is None ==> (r matches Err(e)
            && e@ == "Invalid condition type"@),
        (spec_condition_of_tag(condition_type@, threshold as int) is Some && spec_severity_of_tag(
            severity@,
        ) is None) ==> (r matches Err(e) && e@ == "Invalid severity"@),
        (spec_condition_of_tag(condition_type@, threshold as int) is Some && spec_severity_of_tag(
            severity@,
        ) is Some) ==> (r matches Ok(rule) && spec_condition_of_tag(
            condition_type@,
            threshold as int,
        ) == Some(rule@.condition) && spec_severity_of_tag(severity@) == Some(rule@.severity)
            && rule@ == spec_new_rule(
            rule@.id,
            name@,
            description@,
            rule@.condition,
            rule@.severity,
        ) && rule@.id.len() == 36),
{
    let condition = match parse_condition_tag(condition_type, threshold) {
        Ok(c) => c,
        Err(e) => {
            return Err(e);
        },
    };
    let parsed_severity = match parse_severity_tag(severity) {
        Ok(s) => s,
        Err(e) => {
            return Err(e);
        },
    };
    Ok(AlertRule::new(fresh_id(), name, description, condition, parsed_severity))
}

} // verus!
