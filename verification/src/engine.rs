//! The alert engine: the mutable rule set and its evaluation step.
//!
//! The engine owns the rules. `evaluate_at` runs every rule against one
//! snapshot at one instant, returns the alerts of the rules that fired, and
//! stamps `last_triggered` on exactly those rules — the atomic
//! evaluate-and-stamp step of each tick. Rule ids stay pairwise distinct
//! through every mutation.

use vstd::prelude::*;

use crate::clock::now_seconds;
use crate::rules::{spec_generate_message, spec_should_trigger, AlertRule, AlertRuleView,
    AlertSeverity, default_rules, lemma_default_rule_ids_distinct, spec_default_rules};
use crate::snapshot::MetricsSnapshot;
use crate::text::{clone_string_vec, string_eq_str};

verus! {

/// The views of a list of rules, element for element.
pub open spec fn spec_views(rules: Seq<AlertRule>) -> Seq<AlertRuleView> {
    Seq::new(rules.len(), |i: int| rules[i]@)
}

/// Pairwise distinctness of rule ids.
pub open spec fn spec_rule_ids_distinct(rules: Seq<AlertRuleView>) -> bool {
    forall|i: int, j: int| #![trigger rules[i].id, rules[j].id]
        0 <= i < j < rules.len() ==> rules[i].id != rules[j].id
}

/// Whether some rule of the set carries the id.
pub open spec fn spec_has_rule(rules: Seq<AlertRuleView>, id: Seq<char>) -> bool {
    exists|i: int| 0 <= i < rules.len() && rules[i].id == id
}

/// The index of the rule carrying the id (meaningful when ids are distinct
/// and `spec_has_rule` holds).
pub open spec fn spec_rule_index(rules: Seq<AlertRuleView>, id: Seq<char>) -> int {
    choose|i: int| 0 <= i < rules.len() && rules[i].id == id
}

/// With distinct ids, `spec_rule_index` is the one index carrying `id`.
proof fn lemma_rule_index_unique(rules: Seq<AlertRuleView>, id: Seq<char>, i: int)
    requires
        spec_rule_ids_distinct(rules),
        0 <= i < rules.len(),
        rules[i].id == id,
    ensures
        spec_has_rule(rules, id),
        spec_rule_index(rules, id) == i,
{
    assert(spec_has_rule(rules, id));
    let w = spec_rule_index(rules, id);
    assert(0 <= w < rules.len() && rules[w].id == id);
    if w < i {
        assert(rules[w].id != rules[i].id);
    } else if w > i {
        assert(rules[i].id != rules[w].id);
    }
}

/// A rule after its trigger instant was recorded.
pub open spec fn spec_stamped(rule: AlertRuleView, now: int) -> AlertRuleView {
    AlertRuleView { last_triggered: Some(now), ..rule }
}

/// The rule set without the rules carrying `id`.
pub open spec fn spec_without_rule(rules: Seq<AlertRuleView>, id: Seq<char>) -> Seq<AlertRuleView> {
    rules.filter(|r: AlertRuleView| r.id != id)
}

/// Removing from the empty set leaves the empty set.
proof fn lemma_without_rule_empty(id: Seq<char>)
    ensures
        spec_without_rule(Seq::empty(), id) == Seq::<AlertRuleView>::empty(),
{
    reveal(Seq::filter);
}

/// How `spec_without_rule` grows with the prefix it is applied to.
proof fn lemma_without_rule_step(rules: Seq<AlertRuleView>, id: Seq<char>, i: int)
    requires
        0 <= i < rules.len(),
    ensures
        rules[i].id != id ==> spec_without_rule(rules.take(i + 1), id) == spec_without_rule(
            rules.take(i),
            id,
        ).push(rules[i]),
        rules[i].id == id ==> spec_without_rule(rules.take(i + 1), id) == spec_without_rule(
            rules.take(i),
            id,
        ),
{
    reveal(Seq::filter);
    assert(rules.take(i + 1).drop_last() =~= rules.take(i));
    assert(rules.take(i + 1).last() == rules[i]);
}

/// Removing the rules of one id keeps the remaining ids distinct, and every
/// remaining rule was in the set before.
proof fn lemma_without_rule_distinct(rules: Seq<AlertRuleView>, id: Seq<char>)
    requires
        spec_rule_ids_distinct(rules),
    ensures
        spec_rule_ids_distinct(spec_without_rule(rules, id)),
        forall|k: int|
            0 <= k < spec_without_rule(rules, id).len() ==> exists|j: int|
                0 <= j < rules.len() && #[trigger] spec_without_rule(rules, id)[k] == rules[j],
    decreases rules.len(),
{
    reveal(Seq::filter);
    if rules.len() > 0 {
        let prev = rules.drop_last();
        assert(spec_rule_ids_distinct(prev));
        lemma_without_rule_distinct(prev, id);
        let fprev = spec_without_rule(prev, id);
        let out = spec_without_rule(rules, id);
        if rules.last().id != id {
            assert(out == fprev.push(rules.last()));
            assert forall|k: int| 0 <= k < out.len() implies exists|j: int|
                0 <= j < rules.len() && #[trigger] out[k] == rules[j] by {
                if k < fprev.len() {
                    assert(out[k] == fprev[k]);
                    let j = choose|j: int|
                        0 <= j < prev.len() && #[trigger] fprev[k] == prev[j];
                    assert(out[k] == rules[j]);
                } else {
                    assert(out[k] == rules[rules.len() - 1]);
                }
            }
            assert forall|a: int, b: int| 0 <= a < b < out.len() implies out[a].id != out[b].id by {
                if b < fprev.len() {
                    assert(fprev[a].id != fprev[b].id);
                } else {
                    let j = choose|j: int|
                        0 <= j < prev.len() && #[trigger] fprev[a] == prev[j];
                    assert(rules[j].id != rules[rules.len() - 1].id);
                }
            }
        } else {
            assert(out == fprev);
            assert forall|k: int| 0 <= k < out.len() implies exists|j: int|
                0 <= j < rules.len() && #[trigger] out[k] == rules[j] by {
                let j = choose|j: int| 0 <= j < prev.len() && #[trigger] fprev[k] == prev[j];
                assert(out[k] == rules[j]);
            }
        }
    }
}

/// Filtering out an id that no rule carries keeps every rule.
proof fn lemma_without_rule_absent(rules: Seq<AlertRuleView>, id: Seq<char>)
    requires
        forall|j: int| 0 <= j < rules.len() ==> #[trigger] rules[j].id != id,
    ensures
        spec_without_rule(rules, id) == rules,
    decreases rules.len(),
{
    reveal(Seq::filter);
    if rules.len() > 0 {
        lemma_without_rule_absent(rules.drop_last(), id);
        assert(spec_without_rule(rules, id) =~= rules);
    }
}

/// One alert raised by a rule firing, carrying everything the history store
/// and the notifier need.
#[derive(Debug)]
pub struct TriggeredAlert {
    /// Id of the rule that fired.
    pub rule_id: String,
    /// Name of the rule that fired.
    pub rule_name: String,
    /// The rendered alert message.
    pub message: String,
    /// Severity of the rule.
    pub severity: AlertSeverity,
    /// Fan-out target node ids of the rule; empty means every known peer.
    pub notify_nodes: Vec<String>,
}

/// The mathematical image of a [`TriggeredAlert`].
#[verifier::ext_equal]
pub ghost struct TriggeredAlertView {
    pub rule_id: Seq<char>,
    pub rule_name: Seq<char>,
    pub message: Seq<char>,
    pub severity: AlertSeverity,
    pub notify_nodes: Seq<Seq<char>>,
}

impl View for TriggeredAlert {
    type V = TriggeredAlertView;

    open spec fn view(&self) -> TriggeredAlertView {
        TriggeredAlertView {
            rule_id: self.rule_id@,
            rule_name: self.rule_name@,
            message: self.message@,
            severity: self.severity,
            notify_nodes: self.notify_nodes.deep_view(),
        }
    }
}

/// The views of a list of alerts, element for element.
pub open spec fn spec_alert_views(alerts: Seq<TriggeredAlert>) -> Seq<TriggeredAlertView> {
    Seq::new(alerts.len(), |i: int| alerts[i]@)
}

/// The alert a rule raises when it fires against snapshot `m`.
pub open spec fn spec_alert_of(rule: AlertRuleView, m: Map<Seq<char>, i64>) -> TriggeredAlertView {
    TriggeredAlertView {
        rule_id: rule.id,
        rule_name: rule.name,
        message: spec_generate_message(rule, m),
        severity: rule.severity,
        notify_nodes: rule.notify_nodes,
    }
}

/// The alerts of the rules that fire against `m` at `now`, in rule-set
/// order.
pub open spec fn spec_triggered(
    rules: Seq<AlertRuleView>,
    m: Map<Seq<char>, i64>,
    now: int,
) -> Seq<TriggeredAlertView>
    decreases rules.len(),
{
    if rules.len() == 0 {
        Seq::empty()
    } else {
        spec_triggered(rules.drop_last(), m, now) + if spec_should_trigger(rules.last(), m, now) {
            seq![spec_alert_of(rules.last(), m)]
        } else {
            Seq::empty()
        }
    }
}

/// How `spec_triggered` grows with the prefix it is applied to.
proof fn lemma_triggered_step(rules: Seq<AlertRuleView>, m: Map<Seq<char>, i64>, now: int, i: int)
    requires
        0 <= i < rules.len(),
    ensures
        spec_should_trigger(rules[i], m, now) ==> spec_triggered(rules.take(i + 1), m, now)
            == spec_triggered(rules.take(i), m, now).push(spec_alert_of(rules[i], m)),
        !spec_should_trigger(rules[i], m, now) ==> spec_triggered(rules.take(i + 1), m, now)
            == spec_triggered(rules.take(i), m, now),
{
    assert(rules.take(i + 1).drop_last() =~= rules.take(i));
    assert(rules.take(i + 1).last() == rules[i]);
    if spec_should_trigger(rules[i], m, now) {
        assert(spec_triggered(rules.take(i + 1), m, now) =~= spec_triggered(
            rules.take(i),
            m,
            now,
        ).push(spec_alert_of(rules[i], m)));
    } else {
        assert(spec_triggered(rules.take(i + 1), m, now) =~= spec_triggered(rules.take(i), m, now));
    }
}

/// What one evaluation step does: every firing rule is stamped at `now`,
/// every other rule is untouched, and the returned alerts are exactly the
/// alerts of the firing rules, in order.
pub open spec fn spec_evaluate_post(
    pre: Seq<AlertRuleView>,
    post: Seq<AlertRuleView>,
    alerts: Seq<TriggeredAlertView>,
    m: Map<Seq<char>, i64>,
    now: int,
) -> bool {
    &&& post.len() == pre.len()
    &&& forall|i: int|
        0 <= i < pre.len() ==> #[trigger] post[i] == if spec_should_trigger(pre[i], m, now) {
            spec_stamped(pre[i], now)
        } else {
            pre[i]
        }
    &&& alerts == spec_triggered(pre, m, now)
}

/// The rule-evaluation engine: the mutable set of alert rules.
pub struct AlertEngine {
    rules: Vec<AlertRule>,
}

impl View for AlertEngine {
    type V = Seq<AlertRuleView>;

    closed spec fn view(&self) -> Seq<AlertRuleView> {
        spec_views(self.rules@)
    }
}

impl AlertEngine {
    /// Rule ids are pairwise distinct.
    pub open spec fn wf(&self) -> bool {
        spec_rule_ids_distinct(self@)
    }

    /// Creates an engine holding the given rules.
    pub fn new(rules: Vec<AlertRule>) -> (r: AlertEngine)
        requires
            spec_rule_ids_distinct(spec_views(rules@)),
        ensures
            r@ == spec_views(rules@),
            r.wf(),
    {
        AlertEngine { rules }
    }

    /// Creates an engine holding the built-in rule set.
    pub fn new_default() -> (r: AlertEngine)
        ensures
            r@ == spec_default_rules(),
            r.wf(),
    {
        let rules = default_rules();
        proof {
            assert(spec_views(rules@) =~= spec_default_rules());
            lemma_default_rule_ids_distinct();
        }
        AlertEngine::new(rules)
    }

    /// A value copy of the rule set.
    pub fn get_rules(&self) -> (r: Vec<AlertRule>)
        ensures
            spec_views(r@) == self@,
    {
        let mut r: Vec<AlertRule> = Vec::new();
        let mut i: usize = 0;
        while i < self.rules.len()
            invariant
                i <= self.rules@.len(),
                r@.len() == i,
                forall|j: int| 0 <= j < i ==> #[trigger] r@[j]@ == self.rules@[j]@,
            decreases self.rules@.len() - i,
        {
            r.push(self.rules[i].clone());
            i = i + 1;
        }
        proof {
            assert(spec_views(r@) =~= self@);
        }
        r
    }

    /// The number of rules.
    pub fn rule_count(&self) -> (n: usize)
        ensures
            n == self@.len(),
    {
        self.rules.len()
    }

    /// Adds a rule. A rule whose id is already present is not added, so that
    /// ids stay distinct.
    pub fn add_rule(&mut self, rule: AlertRule)
        requires
            old(self).wf(),
        ensures
            final(self).wf(),
            spec_has_rule(old(self)@, rule@.id) ==> final(self)@ == old(self)@,
            !spec_has_rule(old(self)@, rule@.id) ==> final(self)@ == old(self)@.push(rule@),
    {
        let ghost pre = self@;
        let mut i: usize = 0;
        while i < self.rules.len()
            invariant
                pre == old(self)@,
                spec_rule_ids_distinct(pre),
                self@ == pre,
                i <= pre.len(),
                forall|j: int| 0 <= j < i ==> #[trigger] pre[j].id != rule@.id,
            decreases pre.len() - i,
        {
            if string_eq_str(&self.rules[i].id, rule.id.as_str()) {
                proof {
                    assert(pre[i as int].id == rule@.id);
                    assert(spec_has_rule(pre, rule@.id));
                }
                return ;
            }
            i = i + 1;
        }
        self.rules.push(rule);
        proof {
            assert(!spec_has_rule(pre, rule@.id));
            assert(self@ =~= pre.push(rule@));
            assert forall|a: int, b: int| 0 <= a < b < self@.len() implies self@[a].id
                != self@[b].id by {
                if b < pre.len() {
                    assert(pre[a].id != pre[b].id);
                } else {
                    assert(self@[b].id == rule@.id);
                    assert(pre[a].id != rule@.id);
                }
            }
        }
    }

    /// Removes the rule of the given id; an unknown id is a no-op, and the
    /// rule set is unchanged then.
    #[verifier::rlimit(50)]
    pub fn remove_rule(&mut self, rule_id: &str)
        requires
            old(self).wf(),
        ensures
            final(self).wf(),
            final(self)@ == spec_without_rule(old(self)@, rule_id@),
            !spec_has_rule(old(self)@, rule_id@) ==> final(self)@ == old(self)@,
    {
        let ghost pre = self@;
        let mut kept: Vec<AlertRule> = Vec::new();
        let mut i: usize = 0;
        proof {
            lemma_without_rule_empty(rule_id@);
            assert(pre.take(0) =~= Seq::<AlertRuleView>::empty());
            assert(spec_views(kept@) =~= spec_without_rule(pre.take(0), rule_id@));
        }
        while i < self.rules.len()
            invariant
                pre == old(self)@,
                self@ == pre,
                i <= pre.len(),
                spec_views(kept@) == spec_without_rule(pre.take(i as int), rule_id@),
            decreases pre.len() - i,
        {
            let ghost kept_pre = spec_views(kept@);
            if !string_eq_str(&self.rules[i].id, rule_id) {
                kept.push(self.rules[i].clone());
                proof {
                    assert(spec_views(kept@) =~= kept_pre.push(pre[i as int]));
                }
            }
            proof {
                lemma_without_rule_step(pre, rule_id@, i as int);
            }
            i = i + 1;
        }
        proof {
            assert(pre.take(pre.len() as int) =~= pre);
        }
        self.rules = kept;
        proof {
            lemma_without_rule_distinct(pre, rule_id@);
            if !spec_has_rule(pre, rule_id@) {
                assert(forall|j: int| 0 <= j < pre.len() ==> #[trigger] pre[j].id != rule_id@);
                lemma_without_rule_absent(pre, rule_id@);
            }
        }
    }

    /// Enables or disables the rule of the given id; an unknown id is a
    /// no-op, and the rule set is unchanged then.
    pub fn toggle_rule(&mut self, rule_id: &str, enabled: bool)
        requires
            old(self).wf(),
        ensures
            final(self).wf(),
            spec_has_rule(old(self)@, rule_id@) ==> final(self)@ == old(self)@.update(
                spec_rule_index(old(self)@, rule_id@),
                (AlertRuleView {
                    enabled,
                    ..old(self)@[spec_rule_index(old(self)@, rule_id@)]
                }),
            ),
            !spec_has_rule(old(self)@, rule_id@) ==> final(self)@ == old(self)@,
    {
        let ghost pre = self@;
        let mut i: usize = 0;
        while i < self.rules.len()
            invariant
                pre == old(self)@,
                spec_rule_ids_distinct(pre),
                self@ == pre,
                i <= pre.len(),
                forall|j: int| 0 <= j < i ==> #[trigger] pre[j].id != rule_id@,
            decreases pre.len() - i,
        {
            if string_eq_str(&self.rules[i].id, rule_id) {
                let mut r = self.rules.remove(i);
                r.enabled = enabled;
                self.rules.insert(i, r);
                proof {
                    assert(pre[i as int].id == rule_id@);
                    lemma_rule_index_unique(pre, rule_id@, i as int);
                    assert(self@ =~= pre.update(
                        i as int,
                        (AlertRuleView { enabled, ..pre[i as int] }),
                    ));
                    assert forall|a: int, b: int| 0 <= a < b < self@.len() implies self@[a].id
                        != self@[b].id by {
                        assert(self@[a].id == pre[a].id);
                        assert(self@[b].id == pre[b].id);
                        assert(pre[a].id != pre[b].id);
                    }
                }
                return ;
            }
            i = i + 1;
        }
        proof {
            assert(!spec_has_rule(pre, rule_id@));
        }
    }

    /// Runs every rule against snapshot `m` at instant `now`: returns the
    /// alerts of the rules that fire, in rule-set order, and stamps
    /// `last_triggered = now` on exactly those rules.
    pub fn evaluate_at(&mut self, m: &MetricsSnapshot, now: i64) -> (alerts: Vec<TriggeredAlert>)
        requires
            m.wf(),
        ensures
            spec_evaluate_post(old(self)@, final(self)@, spec_alert_views(alerts@), m@, now as int),
            old(self).wf() ==> final(self).wf(),
    {
        let ghost pre = self@;
        let mut out: Vec<TriggeredAlert> = Vec::new();
        let mut i: usize = 0;
        proof {
            assert(pre.take(0) =~= Seq::<AlertRuleView>::empty());
            assert(spec_alert_views(out@) =~= spec_triggered(pre.take(0), m@, now as int));
        }
        while i < self.rules.len()
            invariant
                m.wf(),
                self.rules@.len() == pre.len(),
                i <= pre.len(),
                forall|j: int| i <= j < pre.len() ==> #[trigger] self@[j] == pre[j],
                forall|j: int|
                    0 <= j < i ==> #[trigger] self@[j] == if spec_should_trigger(
                        pre[j],
                        m@,
                        now as int,
                    ) {
                        spec_stamped(pre[j], now as int)
                    } else {
                        pre[j]
                    },
                spec_alert_views(out@) == spec_triggered(pre.take(i as int), m@, now as int),
            decreases pre.len() - i,
        {
            let ghost out_pre = spec_alert_views(out@);
            let ghost rules_pre = self.rules@;
            proof {
                assert(self@[i as int] == pre[i as int]);
            }
            let fire = self.rules[i].should_trigger_at(m, now);
            if fire {
                let message = self.rules[i].generate_message(m);
                out.push(TriggeredAlert {
                    rule_id: self.rules[i].id.clone(),
                    rule_name: self.rules[i].name.clone(),
                    message,
                    severity: self.rules[i].severity,
                    notify_nodes: clone_string_vec(&self.rules[i].notify_nodes),
                });
                let mut r = self.rules.remove(i);
                r.mark_triggered_at(now);
                self.rules.insert(i, r);
                proof {
                    assert(self.rules@ =~= rules_pre.update(i as int, self.rules@[i as int]));
                    assert(self.rules@[i as int]@ == spec_stamped(pre[i as int], now as int));
                    let a = out@[out@.len() - 1]@;
                    assert(a.notify_nodes =~= pre[i as int].notify_nodes);
                    assert(a =~= spec_alert_of(pre[i as int], m@));
                    assert(spec_alert_views(out@) =~= out_pre.push(
                        spec_alert_of(pre[i as int], m@),
                    ));
                }
            }
            proof {
                lemma_triggered_step(pre, m@, now as int, i as int);
                assert forall|j: int| i + 1 <= j < pre.len() implies #[trigger] self@[j] == pre[j]
                    by {
                    assert(self.rules@[j] == rules_pre[j]);
                    assert(spec_views(rules_pre)[j] == pre[j]);
                }
                assert forall|j: int| 0 <= j < i + 1 implies #[trigger] self@[j]
                    == if spec_should_trigger(pre[j], m@, now as int) {
                    spec_stamped(pre[j], now as int)
                } else {
                    pre[j]
                } by {
                    if j < i as int {
                        assert(self.rules@[j] == rules_pre[j]);
                        assert(spec_views(rules_pre)[j] == if spec_should_trigger(
                            pre[j],
                            m@,
                            now as int,
                        ) {
                            spec_stamped(pre[j], now as int)
                        } else {
                            pre[j]
                        });
                    } else {
                        assert(spec_views(rules_pre)[j] == pre[j]);
                    }
                }
            }
            i = i + 1;
        }
        proof {
            assert(pre.take(pre.len() as int) =~= pre);
            if spec_rule_ids_distinct(pre) {
                assert forall|a: int, b: int| 0 <= a < b < self@.len() implies self@[a].id
                    != self@[b].id by {
                    assert(self@[a].id == pre[a].id);
                    assert(self@[b].id == pre[b].id);
                    assert(pre[a].id != pre[b].id);
                }
            }
        }
        out
    }

    /// Runs every rule against snapshot `m` at the current system time.
    pub fn evaluate(&mut self, m: &MetricsSnapshot) -> (alerts: Vec<TriggeredAlert>)
        requires
            m.wf(),
        ensures
            exists|now: int|
                #[trigger] spec_evaluate_post(
                    old(self)@,
                    final(self)@,
                    spec_alert_views(alerts@),
                    m@,
                    now,
                ),
            old(self).wf() ==> final(self).wf(),
    {
        let now: i64 = now_seconds();
        self.evaluate_at(m, now)
    }
}

/// The cooldown law. Let one evaluation step at `now1` fire rule `i`. A
/// later evaluation within that rule's cooldown cannot fire it again, on
/// any snapshot; and once the cooldown has elapsed, the rule fires exactly
/// when it is enabled and its condition holds of the new snapshot.
pub proof fn lemma_cooldown_governs_retrigger(
    pre: Seq<AlertRuleView>,
    post: Seq<AlertRuleView>,
    alerts: Seq<TriggeredAlertView>,
    m1: Map<Seq<char>, i64>,
    m2: Map<Seq<char>, i64>,
    now1: int,
    now2: int,
    i: int,
)
    requires
        spec_evaluate_post(pre, post, alerts, m1, now1),
        0 <= i < pre.len(),
        spec_should_trigger(pre[i], m1, now1),
    ensures
        now2 - now1 < pre[i].cooldown_seconds ==> !spec_should_trigger(post[i], m2, now2),
        now2 - now1 >= pre[i].cooldown_seconds ==> (spec_should_trigger(post[i], m2, now2)
            <==> (pre[i].enabled && crate::rules::spec_condition_holds(pre[i].condition, m2))),
{
    assert(post[i] == spec_stamped(pre[i], now1));
}

} // verus!
