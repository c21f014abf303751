//! Notification fan-out planning.
//!
//! When a rule fires, the alert goes to the local user and to peers. The
//! logic here is the pure part of that dispatch: building the outbound
//! envelope and resolving the fan-out target set from a registry snapshot.
//! An empty target list means every known peer; otherwise exactly the known
//! peers whose id is listed, with unknown ids silently skipped. The network
//! delivery itself — one bounded-timeout POST per target, each independent
//! of the others — is left to the caller.

use vstd::prelude::*;

use crate::clock::now_millis;
use crate::node::{spec_api_url, NodeInfo, NodeInfoView};
use crate::bounded::{lemma_filter_empty, lemma_filter_take_step};
use crate::registry::spec_node_views;
use crate::rules::{spec_severity_label, AlertSeverity};
use crate::text::{contains_string, spec_contains_string};

verus! {

/// The outbound alert envelope posted to each target peer, and received
/// from peers on the inbound side.
#[derive(Debug)]
pub struct AlertNotification {
    /// Id of the node the alert originates from.
    pub source_node_id: String,
    /// Name of the node the alert originates from.
    pub source_node_name: String,
    /// Which alert this is: the id of the rule that fired.
    pub alert_type: String,
    /// The rendered alert message.
    pub message: String,
    /// The severity, rendered as its text label.
    pub severity: String,
    /// When the alert was raised, in milliseconds since the Unix epoch.
    pub timestamp: i64,
}

/// The mathematical image of an [`AlertNotification`].
#[verifier::ext_equal]
pub ghost struct AlertNotificationView {
    pub source_node_id: Seq<char>,
    pub source_node_name: Seq<char>,
    pub alert_type: Seq<char>,
    pub message: Seq<char>,
    pub severity: Seq<char>,
    pub timestamp: int,
}

impl View for AlertNotification {
    type V = AlertNotificationView;

    open spec fn view(&self) -> AlertNotificationView {
        AlertNotificationView {
            source_node_id: self.source_node_id@,
            source_node_name: self.source_node_name@,
            alert_type: self.alert_type@,
            message: self.message@,
            severity: self.severity@,
            timestamp: self.timestamp as int,
        }
    }
}

impl Clone for AlertNotification {
    /// Copies the envelope; the copy has the same view.
    fn clone(&self) -> (r: Self)
        ensures
            r@ == self@,
    {
        AlertNotification {
            source_node_id: self.source_node_id.clone(),
            source_node_name: self.source_node_name.clone(),
            alert_type: self.alert_type.clone(),
            message: self.message.clone(),
            severity: self.severity.clone(),
            timestamp: self.timestamp,
        }
    }
}

/// The envelope of an alert: source fields from the local node, the rule id
/// as the alert type, the severity label, and the given instant.
pub open spec fn spec_notification(
    local: NodeInfoView,
    alert_id: Seq<char>,
    message: Seq<char>,
    severity: AlertSeverity,
    timestamp_ms: int,
) -> AlertNotificationView {
    AlertNotificationView {
        source_node_id: local.id,
        source_node_name: local.name,
        alert_type: alert_id,
        message,
        severity: spec_severity_label(severity),
        timestamp: timestamp_ms,
    }
}

/// Builds the outbound envelope for an alert raised at `timestamp_ms`.
pub fn build_notification(
    local: &NodeInfo,
    alert_id: &str,
    message: &str,
    severity: &AlertSeverity,
    timestamp_ms: i64,
) -> (r: AlertNotification)
    ensures
        r@ == spec_notification(local@, alert_id@, message@, *severity, timestamp_ms as int),
{
    AlertNotification {
        source_node_id: local.id.clone(),
        source_node_name: local.name.clone(),
        alert_type: alert_id.to_owned(),
        message: message.to_owned(),
        severity: severity.label().to_owned(),
        timestamp: timestamp_ms,
    }
}

/// The fan-out target set: every known peer when `target_ids` is empty,
/// else exactly the known peers whose id is listed, in registry order.
pub open spec fn spec_targets(
    nodes: Seq<NodeInfoView>,
    target_ids: Seq<Seq<char>>,
) -> Seq<NodeInfoView> {
    if target_ids.len() == 0 {
        nodes
    } else {
        nodes.filter(|n: NodeInfoView| target_ids.contains(n.id))
    }
}

/// Resolves the fan-out target set from a registry snapshot.
pub fn resolve_targets(nodes: &Vec<NodeInfo>, target_ids: &Vec<String>) -> (r: Vec<NodeInfo>)
    ensures
        spec_node_views(r@) == spec_targets(spec_node_views(nodes@), target_ids.deep_view()),
{
    let ghost all = spec_node_views(nodes@);
    let ghost ids = target_ids.deep_view();
    if target_ids.len() == 0 {
        let mut r: Vec<NodeInfo> = Vec::new();
        let mut i: usize = 0;
        while i < nodes.len()
            invariant
                i <= nodes@.len(),
                r@.len() == i,
                forall|j: int| 0 <= j < i ==> #[trigger] r@[j]@ == nodes@[j]@,
            decreases nodes@.len() - i,
        {
            r.push(nodes[i].clone());
            i = i + 1;
        }
        proof {
            assert(spec_node_views(r@) =~= all);
        }
        r
    } else {
        let ghost pred = |n: NodeInfoView| ids.contains(n.id);
        let mut r: Vec<NodeInfo> = Vec::new();
        let mut i: usize = 0;
        proof {
            lemma_filter_empty(pred);
            assert(all.take(0) =~= Seq::<NodeInfoView>::empty());
            assert(spec_node_views(r@) =~= all.take(0).filter(pred));
        }
        while i < nodes.len()
            invariant
                nodes@.len() == all.len(),
                forall|j: int| 0 <= j < all.len() ==> #[trigger] nodes@[j]@ == all[j],
                ids == target_ids.deep_view(),
                pred == (|n: NodeInfoView| ids.contains(n.id)),
                i <= all.len(),
                spec_node_views(r@) == all.take(i as int).filter(pred),
            decreases all.len() - i,
        {
            let ghost r_pre = spec_node_views(r@);
            if contains_string(target_ids, &nodes[i].id) {
                r.push(nodes[i].clone());
                proof {
                    assert(spec_contains_string(target_ids@, nodes@[i as int].id@));
                    let w = choose|w: int|
                        0 <= w < target_ids@.len() && target_ids@[w]@ == nodes@[i as int].id@;
                    assert(ids[w] == nodes@[i as int].id@);
                    assert(ids.contains(all[i as int].id));
                    assert(pred(all[i as int]));
                    assert(spec_node_views(r@) =~= r_pre.push(all[i as int]));
                }
            } else {
                proof {
                    if pred(all[i as int]) {
                        assert(nodes@[i as int]@ == all[i as int]);
                        assert(all[i as int].id == nodes@[i as int].id@);
                        assert(ids.contains(all[i as int].id));
                        let w = choose|w: int| 0 <= w < ids.len() && ids[w] == all[i as int].id;
                        assert(0 <= w < target_ids@.len());
                        assert(ids[w] == target_ids@[w].deep_view());
                        assert(target_ids@[w].deep_view() == target_ids@[w]@);
                        assert(target_ids@[w]@ == nodes@[i as int].id@);
                        assert(spec_contains_string(target_ids@, nodes@[i as int].id@));
                    }
                    assert(!pred(all[i as int]));
                }
            }
            proof {
                lemma_filter_take_step(all, pred, i as int);
            }
            i = i + 1;
        }
        proof {
            assert(all.take(all.len() as int) =~= all);
        }
        r
    }
}

/// The pure part of the notifier: the local node's description and the
/// latest registry snapshot it fans out to.
pub struct AlertNotifier {
    local_node: NodeInfo,
    remote_nodes: Vec<NodeInfo>,
}

impl AlertNotifier {
    /// The local node the notifier speaks for.
    pub closed spec fn spec_local(&self) -> NodeInfoView {
        self.local_node@
    }

    /// The registry snapshot the notifier fans out to.
    pub closed spec fn spec_remotes(&self) -> Seq<NodeInfoView> {
        spec_node_views(self.remote_nodes@)
    }

    /// Creates a notifier for a local node and an initial peer snapshot.
    pub fn new(local_node: NodeInfo, remote_nodes: Vec<NodeInfo>) -> (r: AlertNotifier)
        ensures
            r.spec_local() == local_node@,
            r.spec_remotes() == spec_node_views(remote_nodes@),
    {
        AlertNotifier { local_node, remote_nodes }
    }

    /// Replaces the peer snapshot the notifier fans out to.
    pub fn update_remote_nodes(&mut self, nodes: Vec<NodeInfo>)
        ensures
            final(self).spec_local() == old(self).spec_local(),
            final(self).spec_remotes() == spec_node_views(nodes@),
    {
        self.remote_nodes = nodes;
    }

    /// Plans one dispatch at instant `timestamp_ms`: the envelope to send,
    /// and the targets to send it to.
    pub fn prepare_alert_at(
        &self,
        alert_id: &str,
        message: &str,
        severity: &AlertSeverity,
        target_node_ids: &Vec<String>,
        timestamp_ms: i64,
    ) -> (r: (AlertNotification, Vec<NodeInfo>))
        ensures
            r.0@ == spec_notification(
                self.spec_local(),
                alert_id@,
                message@,
                *severity,
                timestamp_ms as int,
            ),
            spec_node_views(r.1@) == spec_targets(self.spec_remotes(), target_node_ids.deep_view()),
    {
        let envelope = build_notification(
            &self.local_node,
            alert_id,
            message,
            severity,
            timestamp_ms,
        );
        let targets = resolve_targets(&self.remote_nodes, target_node_ids);
        (envelope, targets)
    }

    /// Plans one dispatch stamped with the current system time.
    pub fn prepare_alert(
        &self,
        alert_id: &str,
        message: &str,
        severity: &AlertSeverity,
        target_node_ids: &Vec<String>,
    ) -> (r: (AlertNotification, Vec<NodeInfo>))
        ensures
            exists|ts: int|
                r.0@ == #[trigger] spec_notification(
                    self.spec_local(),
                    alert_id@,
                    message@,
                    *severity,
                    ts,
                ),
            spec_node_views(r.1@) == spec_targets(self.spec_remotes(), target_node_ids.deep_view()),
    {
        let ts: i64 = now_millis();
        let r = self.prepare_alert_at(alert_id, message, severity, target_node_ids, ts);
        proof {
            assert(r.0@ == spec_notification(
                self.spec_local(),
                alert_id@,
                message@,
                *severity,
                ts as int,
            ));
        }
        r
    }

    /// The delivery address of an alert on a target node.
    pub fn notify_url(target: &NodeInfo) -> (s: String)
        ensures
            s@ == spec_api_url(target@) + "/alerts/notify"@,
    {
        let mut s = target.api_url();
        s.append("/alerts/notify");
        s
    }
}

} // verus!
