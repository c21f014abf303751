//! The peer registry.
//!
//! The registry is the local view of the other nodes on the network, fed by
//! service-discovery events and pruned by heartbeat liveness. It never
//! holds the local node's own id, and holds each peer id at most once.

use vstd::prelude::*;

use crate::bounded::{lemma_filter_empty, lemma_filter_take_step};
use crate::clock::now_seconds;
use crate::node::{IpAddress, NodeInfo, NodeInfoView, NodeStatus};
use crate::text::{string_eq, string_eq_str};

verus! {

/// The advertised full service name of a node, as it appears in removal
/// events.
pub open spec fn spec_service_fullname(name: Seq<char>) -> Seq<char> {
    name + "._skywidget._tcp.local."@
}

/// Renders the advertised full service name of a node.
pub fn service_fullname(name: &String) -> (s: String)
    ensures
        s@ == spec_service_fullname(name@),
{
    let mut s = name.clone();
    s.append("._skywidget._tcp.local.");
    s
}

/// One discovery event, reduced to the plain values the registry reads: a
/// service was resolved with its advertised properties, addresses and port,
/// or a service of some full name went away.
#[derive(Debug)]
pub enum DiscoveryEvent {
    Resolved { properties: Vec<(String, String)>, addresses: Vec<IpAddress>, port: u16 },
    Removed { fullname: String },
}

/// The first value advertised under `key`, if any.
pub open spec fn spec_lookup_prop(props: Seq<(String, String)>, key: Seq<char>) -> Option<
    Seq<char>,
>
    decreases props.len(),
{
    if props.len() == 0 {
        None
    } else if props.first().0@ == key {
        Some(props.first().1@)
    } else {
        spec_lookup_prop(props.drop_first(), key)
    }
}

/// Looks `key` up among advertised properties.
pub fn lookup_prop(props: &Vec<(String, String)>, key: &str) -> (r: Option<String>)
    ensures
        match r {
            Some(v) => spec_lookup_prop(props@, key@) == Some(v@),
            None => spec_lookup_prop(props@, key@) is None,
        },
{
    let mut i: usize = 0;
    proof {
        assert(props@.skip(0) =~= props@);
    }
    while i < props.len()
        invariant
            i <= props@.len(),
            spec_lookup_prop(props@, key@) == spec_lookup_prop(props@.skip(i as int), key@),
        decreases props@.len() - i,
    {
        proof {
            assert(props@.skip(i as int).first() == props@[i as int]);
            assert(props@.skip(i as int).drop_first() =~= props@.skip(i + 1));
        }
        if string_eq_str(&props[i].0, key) {
            return Some(props[i].1.clone());
        }
        i = i + 1;
    }
    proof {
        assert(props@.skip(props@.len() as int) =~= Seq::<(String, String)>::empty());
    }
    None
}

/// The first of the given addresses with four octets, if any.
pub open spec fn spec_first_v4(addrs: Seq<IpAddress>) -> Option<IpAddress>
    decreases addrs.len(),
{
    if addrs.len() == 0 {
        None
    } else if addrs.first() is V4 {
        Some(addrs.first())
    } else {
        spec_first_v4(addrs.drop_first())
    }
}

/// The address a resolved service is reached at: its first four-octet
/// address, or failing that its first address of any kind.
pub open spec fn spec_pick_address(addrs: Seq<IpAddress>) -> Option<IpAddress> {
    match spec_first_v4(addrs) {
        Some(ip) => Some(ip),
        None => if addrs.len() > 0 {
            Some(addrs[0])
        } else {
            None
        },
    }
}

/// Picks the address a resolved service is reached at.
pub fn pick_address(addrs: &Vec<IpAddress>) -> (r: Option<IpAddress>)
    ensures
        r == spec_pick_address(addrs@),
{
    let mut i: usize = 0;
    proof {
        assert(addrs@.skip(0) =~= addrs@);
    }
    while i < addrs.len()
        invariant
            i <= addrs@.len(),
            spec_first_v4(addrs@) == spec_first_v4(addrs@.skip(i as int)),
        decreases addrs@.len() - i,
    {
        proof {
            assert(addrs@.skip(i as int).first() == addrs@[i as int]);
            assert(addrs@.skip(i as int).drop_first() =~= addrs@.skip(i + 1));
        }
        match addrs[i] {
            IpAddress::V4(..) => {
                return Some(addrs[i]);
            },
            IpAddress::V6(..) => {},
        }
        i = i + 1;
    }
    proof {
        assert(addrs@.skip(addrs@.len() as int) =~= Seq::<IpAddress>::empty());
        assert(spec_first_v4(addrs@) is None);
    }
    if addrs.len() > 0 {
        Some(addrs[0])
    } else {
        None
    }
}

/// What a resolved service describes, if its advertisement is complete: the
/// four properties `id`, `name`, `os_info` and `version` must be present
/// and it must have an address; the node is then online with its heartbeat
/// at `now`.
pub open spec fn spec_extracted(
    props: Seq<(String, String)>,
    addrs: Seq<IpAddress>,
    port: int,
    now: int,
) -> Option<NodeInfoView> {
    match spec_lookup_prop(props, "id"@) {
        None => None,
        Some(id) => match spec_lookup_prop(props, "name"@) {
            None => None,
            Some(name) => match spec_lookup_prop(props, "os_info"@) {
                None => None,
                Some(os_info) => match spec_lookup_prop(props, "version"@) {
                    None => None,
                    Some(version) => match spec_pick_address(addrs) {
                        None => None,
                        Some(ip) => Some(
                            NodeInfoView {
                                id,
                                name,
                                ip_address: ip,
                                api_port: port,
                                last_heartbeat: now,
                                status: NodeStatus::Online,
                                os_info,
                                version,
                            },
                        ),
                    },
                },
            },
        },
    }
}

/// Reads a node description out of a resolved service's advertisement;
/// a malformed advertisement gives nothing.
pub fn extract_node_info(
    properties: &Vec<(String, String)>,
    addresses: &Vec<IpAddress>,
    port: u16,
    now: i64,
) -> (r: Option<NodeInfo>)
    ensures
        match r {
            Some(n) => spec_extracted(properties@, addresses@, port as int, now as int) == Some(
                n@,
            ),
            None => spec_extracted(properties@, addresses@, port as int, now as int) is None,
        },
{
    let id = match lookup_prop(properties, "id") {
        Some(v) => v,
        None => {
            return None;
        },
    };
    let name = match lookup_prop(properties, "name") {
        Some(v) => v,
        None => {
            return None;
        },
    };
    let os_info = match lookup_prop(properties, "os_info") {
        Some(v) => v,
        None => {
            return None;
        },
    };
    let version = match lookup_prop(properties, "version") {
        Some(v) => v,
        None => {
            return None;
        },
    };
    let ip_address = match pick_address(addresses) {
        Some(ip) => ip,
        None => {
            return None;
        },
    };
    Some(
        NodeInfo {
            id,
            name,
            ip_address,
            api_port: port,
            last_heartbeat: now,
            status: NodeStatus::Online,
            os_info,
            version,
        },
    )
}

/// The views of a list of nodes, element for element.
pub open spec fn spec_node_views(nodes: Seq<NodeInfo>) -> Seq<NodeInfoView> {
    Seq::new(nodes.len(), |i: int| nodes[i]@)
}

/// Pairwise distinctness of node ids.
pub open spec fn spec_node_ids_distinct(nodes: Seq<NodeInfoView>) -> bool {
    forall|i: int, j: int| #![trigger nodes[i].id, nodes[j].id]
        0 <= i < j < nodes.len() ==> nodes[i].id != nodes[j].id
}

/// Whether some node of the list carries the id.
pub open spec fn spec_has_node(nodes: Seq<NodeInfoView>, id: Seq<char>) -> bool {
    exists|i: int| 0 <= i < nodes.len() && nodes[i].id == id
}

/// The index of the node carrying the id (meaningful when ids are distinct
/// and `spec_has_node` holds).
pub open spec fn spec_node_index(nodes: Seq<NodeInfoView>, id: Seq<char>) -> int {
    choose|i: int| 0 <= i < nodes.len() && nodes[i].id == id
}

/// With distinct ids, `spec_node_index` is the one index carrying `id`.
proof fn lemma_node_index_unique(nodes: Seq<NodeInfoView>, id: Seq<char>, i: int)
    requires
        spec_node_ids_distinct(nodes),
        0 <= i < nodes.len(),
        nodes[i].id == id,
    ensures
        spec_has_node(nodes, id),
        spec_node_index(nodes, id) == i,
{
    assert(spec_has_node(nodes, id));
    let w = spec_node_index(nodes, id);
    assert(0 <= w < nodes.len() && nodes[w].id == id);
    if w < i {
        assert(nodes[w].id != nodes[i].id);
    } else if w > i {
        assert(nodes[i].id != nodes[w].id);
    }
}

/// An upsert: a node of the same id is replaced in place, a new id is
/// appended.
pub open spec fn spec_upsert(nodes: Seq<NodeInfoView>, n: NodeInfoView) -> Seq<NodeInfoView> {
    if spec_has_node(nodes, n.id) {
        nodes.update(spec_node_index(nodes, n.id), n)
    } else {
        nodes.push(n)
    }
}

/// The nodes that survive a removal event for `fullname`: those whose
/// advertised service name differs from it.
pub open spec fn spec_without_service(
    nodes: Seq<NodeInfoView>,
    fullname: Seq<char>,
) -> Seq<NodeInfoView> {
    nodes.filter(|n: NodeInfoView| spec_service_fullname(n.name) != fullname)
}

/// The nodes whose heartbeat at `now` is younger than the timeout.
pub open spec fn spec_alive(
    nodes: Seq<NodeInfoView>,
    now: int,
    timeout_seconds: int,
) -> Seq<NodeInfoView> {
    nodes.filter(|n: NodeInfoView| now - n.last_heartbeat < timeout_seconds)
}

/// The registry of discovered peers.
pub struct PeerRegistry {
    nodes: Vec<NodeInfo>,
    local_node_id: String,
}

impl View for PeerRegistry {
    type V = Seq<NodeInfoView>;

    closed spec fn view(&self) -> Seq<NodeInfoView> {
        spec_node_views(self.nodes@)
    }
}

impl PeerRegistry {
    /// The id of the local node, which the registry never holds.
    pub closed spec fn spec_local_id(&self) -> Seq<char> {
        self.local_node_id@
    }

    /// Peer ids are pairwise distinct and none is the local node's.
    pub open spec fn wf(&self) -> bool {
        &&& spec_node_ids_distinct(self@)
        &&& forall|i: int| 0 <= i < self@.len() ==> (#[trigger] self@[i].id) != self.spec_local_id()
    }

    /// Creates an empty registry for a local node id.
    pub fn new(local_node_id: String) -> (r: PeerRegistry)
        ensures
            r@ == Seq::<NodeInfoView>::empty(),
            r.spec_local_id() == local_node_id@,
            r.wf(),
    {
        let r = PeerRegistry { nodes: Vec::new(), local_node_id };
        proof {
            assert(r@ =~= Seq::<NodeInfoView>::empty());
        }
        r
    }

    /// Inserts or refreshes a peer. The local node's own id is discarded;
    /// an id already present has its entry replaced in place.
    pub fn upsert(&mut self, node: NodeInfo)
        requires
            old(self).wf(),
        ensures
            final(self).wf(),
            final(self).spec_local_id() == old(self).spec_local_id(),
            node@.id == old(self).spec_local_id() ==> final(self)@ == old(self)@,
            node@.id != old(self).spec_local_id() ==> final(self)@ == spec_upsert(
                old(self)@,
                node@,
            ),
    {
        let ghost pre = self@;
        if string_eq(&node.id, &self.local_node_id) {
            return ;
        }
        let mut i: usize = 0;
        while i < self.nodes.len()
            invariant
                pre == old(self)@,
                old(self).wf(),
                node@.id != old(self).spec_local_id(),
                self@ == pre,
                self.local_node_id@ == old(self).spec_local_id(),
                i <= pre.len(),
                forall|j: int| 0 <= j < i ==> #[trigger] pre[j].id != node@.id,
            decreases pre.len() - i,
        {
            if string_eq_str(&self.nodes[i].id, node.id.as_str()) {
                proof {
                    assert(pre[i as int].id == node@.id);
                    lemma_node_index_unique(pre, node@.id, i as int);
                }
                let ghost nv = node@;
                self.nodes.remove(i);
                self.nodes.insert(i, node);
                proof {
                    assert(self@ =~= pre.update(i as int, nv));
                    assert forall|a: int, b: int| 0 <= a < b < self@.len() implies self@[a].id
                        != self@[b].id by {
                        assert(pre[a].id != pre[b].id);
                    }
                    assert forall|k: int| 0 <= k < self@.len() implies (#[trigger] self@[k].id)
                        != old(self).spec_local_id() by {
                        if k != i as int {
                            assert(pre[k].id != old(self).spec_local_id());
                        }
                    }
                }
                return ;
            }
            i = i + 1;
        }
        proof {
            assert(!spec_has_node(pre, node@.id));
        }
        let ghost nv = node@;
        self.nodes.push(node);
        proof {
            assert(self@ =~= pre.push(nv));
            assert forall|a: int, b: int| 0 <= a < b < self@.len() implies self@[a].id
                != self@[b].id by {
                if b < pre.len() {
                    assert(pre[a].id != pre[b].id);
                } else {
                    assert(pre[a].id != nv.id);
                }
            }
            assert forall|k: int| 0 <= k < self@.len() implies (#[trigger] self@[k].id)
                != old(self).spec_local_id() by {
                if k < pre.len() {
                    assert(pre[k].id != old(self).spec_local_id());
                }
            }
        }
    }

    /// Drops every peer whose advertised service name is `fullname`.
    pub fn remove_service(&mut self, fullname: &str)
        requires
            old(self).wf(),
        ensures
            final(self).wf(),
            final(self).spec_local_id() == old(self).spec_local_id(),
            final(self)@ == spec_without_service(old(self)@, fullname@),
    {
        let ghost pre = self@;
        let ghost pred = |n: NodeInfoView| spec_service_fullname(n.name) != fullname@;
        let mut kept: Vec<NodeInfo> = Vec::new();
        let mut i: usize = 0;
        proof {
            lemma_filter_empty(pred);
            assert(pre.take(0) =~= Seq::<NodeInfoView>::empty());
            assert(spec_node_views(kept@) =~= pre.take(0).filter(pred));
        }
        while i < self.nodes.len()
            invariant
                pre == old(self)@,
                self@ == pre,
                self.local_node_id@ == old(self).spec_local_id(),
                i <= pre.len(),
                pred == (|n: NodeInfoView| spec_service_fullname(n.name) != fullname@),
                spec_node_views(kept@) == pre.take(i as int).filter(pred),
            decreases pre.len() - i,
        {
            let ghost kept_pre = spec_node_views(kept@);
            let sname = service_fullname(&self.nodes[i].name);
            if !string_eq_str(&sname, fullname) {
                kept.push(self.nodes[i].clone());
                proof {
                    assert(pred(pre[i as int]));
                    assert(spec_node_views(kept@) =~= kept_pre.push(pre[i as int]));
                }
            } else {
                proof {
                    assert(!pred(pre[i as int]));
                }
            }
            proof {
                lemma_filter_take_step(pre, pred, i as int);
            }
            i = i + 1;
        }
        proof {
            assert(pre.take(pre.len() as int) =~= pre);
        }
        self.nodes = kept;
        proof {
            lemma_filtered_nodes_wf(pre, pred, old(self).spec_local_id());
        }
    }

    /// Handles one discovery event at instant `now`: a complete resolution
    /// upserts the described peer (never the local node itself); a removal
    /// drops the peers of that service name; a malformed resolution does
    /// nothing.
    pub fn handle_event(&mut self, event: &DiscoveryEvent, now: i64)
        requires
            old(self).wf(),
        ensures
            final(self).wf(),
            final(self).spec_local_id() == old(self).spec_local_id(),
            match event {
                DiscoveryEvent::Resolved { properties, addresses, port } => match spec_extracted(
                    properties@,
                    addresses@,
                    *port as int,
                    now as int,
                ) {
                    Some(n) => if n.id == old(self).spec_local_id() {
                        final(self)@ == old(self)@
                    } else {
                        final(self)@ == spec_upsert(old(self)@, n)
                    },
                    None => final(self)@ == old(self)@,
                },
                DiscoveryEvent::Removed { fullname } => final(self)@ == spec_without_service(
                    old(self)@,
                    fullname@,
                ),
            },
    {
        match event {
            DiscoveryEvent::Resolved { properties, addresses, port } => {
                match extract_node_info(properties, addresses, *port, now) {
                    Some(node) => {
                        self.upsert(node);
                    },
                    None => {},
                }
            },
            DiscoveryEvent::Removed { fullname } => {
                self.remove_service(fullname.as_str());
            },
        }
    }

    /// A value snapshot of the known peers.
    pub fn get_discovered_nodes(&self) -> (r: Vec<NodeInfo>)
        ensures
            spec_node_views(r@) == self@,
    {
        let mut r: Vec<NodeInfo> = Vec::new();
        let mut i: usize = 0;
        while i < self.nodes.len()
            invariant
                i <= self.nodes@.len(),
                r@.len() == i,
                forall|j: int| 0 <= j < i ==> #[trigger] r@[j]@ == self.nodes@[j]@,
            decreases self.nodes@.len() - i,
        {
            r.push(self.nodes[i].clone());
            i = i + 1;
        }
        proof {
            assert(spec_node_views(r@) =~= self@);
        }
        r
    }

    /// Removes every peer whose last heartbeat at instant `now` is at least
    /// the liveness timeout old. Every peer left is younger than that.
    pub fn cleanup_offline_nodes_at(&mut self, now: i64, timeout_seconds: i64)
        requires
            old(self).wf(),
        ensures
            final(self).wf(),
            final(self).spec_local_id() == old(self).spec_local_id(),
            final(self)@ == spec_alive(old(self)@, now as int, timeout_seconds as int),
            forall|i: int|
                0 <= i < final(self)@.len() ==> now - (#[trigger] final(self)@[i]).last_heartbeat
                    < timeout_seconds,
    {
        let ghost pre = self@;
        let ghost pred = |n: NodeInfoView| now as int - n.last_heartbeat < timeout_seconds as int;
        let mut kept: Vec<NodeInfo> = Vec::new();
        let mut i: usize = 0;
        proof {
            lemma_filter_empty(pred);
            assert(pre.take(0) =~= Seq::<NodeInfoView>::empty());
            assert(spec_node_views(kept@) =~= pre.take(0).filter(pred));
        }
        while i < self.nodes.len()
            invariant
                pre == old(self)@,
                self@ == pre,
                self.local_node_id@ == old(self).spec_local_id(),
                i <= pre.len(),
                pred == (
                |n: NodeInfoView| now as int - n.last_heartbeat < timeout_seconds as int
                ),
                spec_node_views(kept@) == pre.take(i as int).filter(pred),
            decreases pre.len() - i,
        {
            let ghost kept_pre = spec_node_views(kept@);
            if self.nodes[i].is_online_at(now, timeout_seconds) {
                kept.push(self.nodes[i].clone());
                proof {
                    assert(pred(pre[i as int]));
                    assert(spec_node_views(kept@) =~= kept_pre.push(pre[i as int]));
                }
            } else {
                proof {
                    assert(!pred(pre[i as int]));
                }
            }
            proof {
                lemma_filter_take_step(pre, pred, i as int);
            }
            i = i + 1;
        }
        proof {
            assert(pre.take(pre.len() as int) =~= pre);
        }
        self.nodes = kept;
        proof {
            lemma_filtered_nodes_wf(pre, pred, old(self).spec_local_id());
            assert forall|k: int| 0 <= k < self@.len() implies now - (
            #[trigger] self@[k]).last_heartbeat < timeout_seconds by {
                pre.lemma_filter_pred(pred, k);
            }
        }
    }

    /// Removes every peer whose last heartbeat is at least the liveness
    /// timeout before the current time.
    pub fn cleanup_offline_nodes(&mut self, timeout_seconds: i64)
        requires
            old(self).wf(),
        ensures
            final(self).wf(),
            final(self).spec_local_id() == old(self).spec_local_id(),
            exists|now: int|
                final(self)@ == #[trigger] spec_alive(old(self)@, now, timeout_seconds as int),
    {
        let now: i64 = now_seconds();
        self.cleanup_offline_nodes_at(now, timeout_seconds);
    }
}

/// A filtered node list keeps distinct ids, keeps every id it had, and so
/// stays well-formed with respect to any excluded id.
proof fn lemma_filtered_nodes_wf(
    nodes: Seq<NodeInfoView>,
    pred: spec_fn(NodeInfoView) -> bool,
    local_id: Seq<char>,
)
    requires
        spec_node_ids_distinct(nodes),
        forall|i: int| 0 <= i < nodes.len() ==> (#[trigger] nodes[i].id) != local_id,
    ensures
        spec_node_ids_distinct(nodes.filter(pred)),
        forall|i: int|
            0 <= i < nodes.filter(pred).len() ==> (#[trigger] nodes.filter(pred)[i].id)
                != local_id,
    decreases nodes.len(),
{
    reveal(Seq::filter);
    if nodes.len() > 0 {
        let prev = nodes.drop_last();
        assert(spec_node_ids_distinct(prev));
        assert(forall|i: int| 0 <= i < prev.len() ==> (#[trigger] prev[i].id) != local_id);
        lemma_filtered_nodes_wf(prev, pred, local_id);
        let fprev = prev.filter(pred);
        let out = nodes.filter(pred);
        if pred(nodes.last()) {
            assert(out == fprev.push(nodes.last()));
            assert forall|k: int| 0 <= k < out.len() implies exists|j: int|
                0 <= j < nodes.len() && #[trigger] out[k] == nodes[j] by {
                if k < fprev.len() {
                    assert(out[k] == fprev[k]);
                    lemma_filtered_nodes_from(prev, pred, k);
                    let j = choose|j: int| 0 <= j < prev.len() && #[trigger] fprev[k] == prev[j];
                    assert(out[k] == nodes[j]);
                } else {
                    assert(out[k] == nodes[nodes.len() - 1]);
                }
            }
            assert forall|a: int, b: int| 0 <= a < b < out.len() implies out[a].id != out[b].id by {
                if b < fprev.len() {
                    assert(fprev[a].id != fprev[b].id);
                } else {
                    lemma_filtered_nodes_from(prev, pred, a);
                    let j = choose|j: int| 0 <= j < prev.len() && #[trigger] fprev[a] == prev[j];
                    assert(nodes[j].id != nodes[nodes.len() - 1].id);
                }
            }
            assert forall|i: int| 0 <= i < out.len() implies (#[trigger] out[i].id) != local_id by {
                if i < fprev.len() {
                    assert(fprev[i].id != local_id);
                } else {
                    assert(out[i] == nodes[nodes.len() - 1]);
                }
            }
        }
    }
}

/// Every element of a filtered node list comes from the list it was
/// filtered out of.
proof fn lemma_filtered_nodes_from(
    nodes: Seq<NodeInfoView>,
    pred: spec_fn(NodeInfoView) -> bool,
    k: int,
)
    requires
        0 <= k < nodes.filter(pred).len(),
    ensures
        exists|j: int| 0 <= j < nodes.len() && #[trigger] nodes.filter(pred)[k] == nodes[j],
    decreases nodes.len(),
{
    reveal(Seq::filter);
    if nodes.len() > 0 {
        let prev = nodes.drop_last();
        let fprev = prev.filter(pred);
        let out = nodes.filter(pred);
        if k < fprev.len() {
            lemma_filtered_nodes_from(prev, pred, k);
            let j = choose|j: int| 0 <= j < prev.len() && #[trigger] fprev[k] == prev[j];
            assert(out[k] == nodes[j]);
        } else {
            assert(out[k] == nodes[nodes.len() - 1]);
        }
    }
}

} // verus!
