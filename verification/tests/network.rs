use skywidget::node::{IpAddress, Node, NodeInfo, NodeStatus};
use skywidget::notifier::{build_notification, resolve_targets, AlertNotifier};
use skywidget::registry::{extract_node_info, service_fullname, DiscoveryEvent, PeerRegistry};
use skywidget::rules::AlertSeverity;

fn peer(id: &str, name: &str, last_heartbeat: i64) -> NodeInfo {
    NodeInfo {
        id: id.to_string(),
        name: name.to_string(),
        ip_address: IpAddress::V4(192, 168, 1, 10),
        api_port: 3030,
        last_heartbeat,
        status: NodeStatus::Online,
        os_info: "Linux 6.1".to_string(),
        version: "0.1.0".to_string(),
    }
}

#[test]
fn api_url_renders_both_address_kinds() {
    let v4 = peer("a", "host-a", 0);
    assert_eq!(v4.api_url(), "http://192.168.1.10:3030");
    let mut v6 = peer("b", "host-b", 0);
    v6.ip_address = IpAddress::V6(0x20, 0x1, 0, 0, 0, 0, 0, 0xab);
    assert_eq!(v6.api_url(), "http://[20:1:0:0:0:0:0:ab]:3030");
}

#[test]
fn notify_url_appends_the_alert_path() {
    let n = peer("a", "host-a", 0);
    assert_eq!(
        AlertNotifier::notify_url(&n),
        "http://192.168.1.10:3030/alerts/notify"
    );
}

#[test]
fn local_node_carries_a_generated_id() {
    let node = Node::new(
        "my-host".to_string(),
        IpAddress::V4(127, 0, 0, 1),
        3030,
        "Linux 6.1".to_string(),
        "0.1.0".to_string(),
    );
    assert_eq!(node.info().id.len(), 36);
    assert_eq!(node.info().name, "my-host");
    assert_eq!(node.info().status, NodeStatus::Online);
    assert!(node.is_online(30));
}

#[test]
fn broadcast_dispatch_reaches_every_known_peer() {
    let nodes = vec![peer("a", "host-a", 0), peer("b", "host-b", 0)];
    let targets = resolve_targets(&nodes, &Vec::new());
    assert_eq!(targets.len(), 2);
    assert_eq!(targets[0].id, "a");
    assert_eq!(targets[1].id, "b");
}

#[test]
fn targeted_dispatch_reaches_only_named_known_peers() {
    let nodes = vec![peer("a", "host-a", 0), peer("b", "host-b", 0)];
    let only_b = resolve_targets(&nodes, &vec!["b".to_string()]);
    assert_eq!(only_b.len(), 1);
    assert_eq!(only_b[0].id, "b");
    // An id that no known peer carries is silently skipped.
    let nobody = resolve_targets(&nodes, &vec!["x".to_string()]);
    assert!(nobody.is_empty());
}

#[test]
fn envelope_carries_source_and_severity_label() {
    let local = peer("me", "my-host", 0);
    let n = build_notification(&local, "cpu_high", "too hot", &AlertSeverity::Critical, 777);
    assert_eq!(n.source_node_id, "me");
    assert_eq!(n.source_node_name, "my-host");
    assert_eq!(n.alert_type, "cpu_high");
    assert_eq!(n.message, "too hot");
    assert_eq!(n.severity, "Critical");
    assert_eq!(n.timestamp, 777);
}

#[test]
fn notifier_plans_against_its_latest_snapshot() {
    let local = peer("me", "my-host", 0);
    let mut notifier = AlertNotifier::new(local, vec![peer("a", "host-a", 0)]);
    notifier.update_remote_nodes(vec![peer("b", "host-b", 0)]);
    let (envelope, targets) =
        notifier.prepare_alert_at("r", "msg", &AlertSeverity::Info, &Vec::new(), 5);
    assert_eq!(envelope.source_node_id, "me");
    assert_eq!(targets.len(), 1);
    assert_eq!(targets[0].id, "b");
}

#[test]
fn registry_upserts_and_never_holds_the_local_node() {
    let mut reg = PeerRegistry::new("me".to_string());
    reg.upsert(peer("me", "my-host", 10));
    assert!(reg.get_discovered_nodes().is_empty());

    reg.upsert(peer("a", "host-a", 10));
    reg.upsert(peer("b", "host-b", 10));
    // Refreshing an id replaces the entry in place.
    reg.upsert(peer("a", "host-a-renamed", 20));
    let nodes = reg.get_discovered_nodes();
    assert_eq!(nodes.len(), 2);
    assert_eq!(nodes[0].id, "a");
    assert_eq!(nodes[0].name, "host-a-renamed");
    assert_eq!(nodes[0].last_heartbeat, 20);
}

#[test]
fn stale_peers_are_absent_after_a_cleanup_sweep() {
    let mut reg = PeerRegistry::new("me".to_string());
    reg.upsert(peer("fresh", "host-a", 100));
    reg.upsert(peer("stale", "host-b", 60));
    // At time 100 with a 30-second timeout, the peer last heard at 60 is
    // removed, not merely marked offline.
    reg.cleanup_offline_nodes_at(100, 30);
    let nodes = reg.get_discovered_nodes();
    assert_eq!(nodes.len(), 1);
    assert_eq!(nodes[0].id, "fresh");
}

#[test]
fn resolved_events_extract_node_descriptions() {
    let props = vec![
        ("id".to_string(), "peer-1".to_string()),
        ("name".to_string(), "host-p".to_string()),
        ("os_info".to_string(), "Linux".to_string()),
        ("version".to_string(), "0.1.0".to_string()),
    ];
    // The first four-octet address wins over an earlier six-groups one.
    let addrs = vec![
        IpAddress::V6(1, 2, 3, 4, 5, 6, 7, 8),
        IpAddress::V4(10, 0, 0, 2),
    ];
    let n = extract_node_info(&props, &addrs, 3030, 50).unwrap();
    assert_eq!(n.id, "peer-1");
    assert_eq!(n.name, "host-p");
    assert_eq!(n.ip_address, IpAddress::V4(10, 0, 0, 2));
    assert_eq!(n.api_port, 3030);
    assert_eq!(n.last_heartbeat, 50);
    assert_eq!(n.status, NodeStatus::Online);

    // A malformed advertisement (missing a property) gives nothing.
    let short = vec![("id".to_string(), "peer-1".to_string())];
    assert!(extract_node_info(&short, &addrs, 3030, 50).is_none());
    // No address at all gives nothing either.
    assert!(extract_node_info(&props, &Vec::new(), 3030, 50).is_none());
}

#[test]
fn discovery_events_drive_the_registry() {
    let mut reg = PeerRegistry::new("me".to_string());
    let props = vec![
        ("id".to_string(), "peer-1".to_string()),
        ("name".to_string(), "host-p".to_string()),
        ("os_info".to_string(), "Linux".to_string()),
        ("version".to_string(), "0.1.0".to_string()),
    ];
    let resolved = DiscoveryEvent::Resolved {
        properties: props,
        addresses: vec![IpAddress::V4(10, 0, 0, 2)],
        port: 3030,
    };
    reg.handle_event(&resolved, 50);
    assert_eq!(reg.get_discovered_nodes().len(), 1);

    // A removal names the advertised full service name.
    let removed = DiscoveryEvent::Removed {
        fullname: service_fullname(&"host-p".to_string()),
    };
    reg.handle_event(&removed, 60);
    assert!(reg.get_discovered_nodes().is_empty());
}
