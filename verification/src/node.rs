//! Peer nodes.
//!
//! A node is one running instance of the monitor on the network: an id, a
//! display name, an address and API port, a liveness heartbeat, a status and
//! some descriptive text. `api_url` renders the base URL that alert
//! deliveries are posted to.

use vstd::prelude::*;

use crate::clock::now_seconds;
use crate::ident::fresh_id;
use crate::numfmt::{spec_dec, spec_hex, u64_dec, u64_hex};

verus! {

/// An IP address, as the plain values the logic reads: four octets, or
/// eight 16-bit groups.
#[derive(Debug, Clone, Copy, PartialEq, Eq, Structural)]
pub enum IpAddress {
    V4(u8, u8, u8, u8),
    V6(u16, u16, u16, u16, u16, u16, u16, u16),
}

/// Liveness status of a node.
#[derive(Debug, Clone, Copy, PartialEq, Eq, Structural)]
pub enum NodeStatus {
    Online,
    Offline,
    Alerting,
}

/// The text of an address: dotted decimal for the four octets, the eight
/// hexadecimal groups joined by colons otherwise.
pub open spec fn spec_ip_text(ip: IpAddress) -> Seq<char> {
    match ip {
        IpAddress::V4(a, b, c, d) => spec_dec(a as int) + "."@ + spec_dec(b as int) + "."@
            + spec_dec(c as int) + "."@ + spec_dec(d as int),
        IpAddress::V6(a, b, c, d, e, f, g, h) => spec_hex(a as int) + ":"@ + spec_hex(b as int)
            + ":"@ + spec_hex(c as int) + ":"@ + spec_hex(d as int) + ":"@ + spec_hex(e as int)
            + ":"@ + spec_hex(f as int) + ":"@ + spec_hex(g as int) + ":"@ + spec_hex(h as int),
    }
}

/// The host part of a URL for an address: a bracketed form for the
/// colon-separated groups, the plain text otherwise.
pub open spec fn spec_ip_host(ip: IpAddress) -> Seq<char> {
    match ip {
        IpAddress::V4(..) => spec_ip_text(ip),
        IpAddress::V6(..) => "["@ + spec_ip_text(ip) + "]"@,
    }
}

/// Renders an address as text.
pub fn ip_text(ip: &IpAddress) -> (s: String)
    ensures
        s@ == spec_ip_text(*ip),
{
    match ip {
        IpAddress::V4(a, b, c, d) => {
            let mut s = u64_dec(*a as u64);
            s.append(".");
            s.append(u64_dec(*b as u64).as_str());
            s.append(".");
            s.append(u64_dec(*c as u64).as_str());
            s.append(".");
            s.append(u64_dec(*d as u64).as_str());
            proof {
                assert(s@ =~= spec_ip_text(*ip));
            }
            s
        },
        IpAddress::V6(a, b, c, d, e, f, g, h) => {
            let mut s = u64_hex(*a as u64);
            s.append(":");
            s.append(u64_hex(*b as u64).as_str());
            s.append(":");
            s.append(u64_hex(*c as u64).as_str());
            s.append(":");
            s.append(u64_hex(*d as u64).as_str());
            s.append(":");
            s.append(u64_hex(*e as u64).as_str());
            s.append(":");
            s.append(u64_hex(*f as u64).as_str());
            s.append(":");
            s.append(u64_hex(*g as u64).as_str());
            s.append(":");
            s.append(u64_hex(*h as u64).as_str());
            proof {
                assert(s@ =~= spec_ip_text(*ip));
            }
            s
        },
    }
}

/// What is known of one node.
#[derive(Debug)]
pub struct NodeInfo {
    /// Unique id of the node.
    pub id: String,
    /// Display name (its hostname).
    pub name: String,
    /// Address its API listens on.
    pub ip_address: IpAddress,
    /// Port its API listens on.
    pub api_port: u16,
    /// When the node was last heard from, in seconds since the Unix epoch.
    pub last_heartbeat: i64,
    /// Liveness status.
    pub status: NodeStatus,
    /// Operating-system description.
    pub os_info: String,
    /// Software version the node reports.
    pub version: String,
}

/// The mathematical image of a [`NodeInfo`].
#[verifier::ext_equal]
pub ghost struct NodeInfoView {
    pub id: Seq<char>,
    pub name: Seq<char>,
    pub ip_address: IpAddress,
    pub api_port: int,
    pub last_heartbeat: int,
    pub status: NodeStatus,
    pub os_info: Seq<char>,
    pub version: Seq<char>,
}

impl View for NodeInfo {
    type V = NodeInfoView;

    open spec fn view(&self) -> NodeInfoView {
        NodeInfoView {
            id: self.id@,
            name: self.name@,
            ip_address: self.ip_address,
            api_port: self.api_port as int,
            last_heartbeat: self.last_heartbeat as int,
            status: self.status,
            os_info: self.os_info@,
            version: self.version@,
        }
    }
}

impl Clone for NodeInfo {
    /// Copies the node description; the copy has the same view.
    fn clone(&self) -> (r: Self)
        ensures
            r@ == self@,
    {
        NodeInfo {
            id: self.id.clone(),
            name: self.name.clone(),
            ip_address: self.ip_address,
            api_port: self.api_port,
            last_heartbeat: self.last_heartbeat,
            status: self.status,
            os_info: self.os_info.clone(),
            version: self.version.clone(),
        }
    }
}

/// The base URL of a node's API.
pub open spec fn spec_api_url(n: NodeInfoView) -> Seq<char> {
    "http://"@ + spec_ip_host(n.ip_address) + ":"@ + spec_dec(n.api_port)
}

impl NodeInfo {
    /// Renders the base URL of this node's API.
    pub fn api_url(&self) -> (s: String)
        ensures
            s@ == spec_api_url(self@),
    {
        let mut s: String = "http://".to_owned();
        match &self.ip_address {
            IpAddress::V4(..) => {
                s.append(ip_text(&self.ip_address).as_str());
            },
            IpAddress::V6(..) => {
                s.append("[");
                s.append(ip_text(&self.ip_address).as_str());
                s.append("]");
            },
        }
        s.append(":");
        s.append(u64_dec(self.api_port as u64).as_str());
        proof {
            assert(s@ =~= spec_api_url(self@));
        }
        s
    }

    /// Whether the node counts as alive at `now`: its last heartbeat is
    /// younger than the timeout.
    pub fn is_online_at(&self, now: i64, timeout_seconds: i64) -> (r: bool)
        ensures
            r == (now - self@.last_heartbeat < timeout_seconds),
    {
        (now as i128) - (self.last_heartbeat as i128) < timeout_seconds as i128
    }
}

/// The local node instance.
pub struct Node {
    info: NodeInfo,
}

impl View for Node {
    type V = NodeInfoView;

    closed spec fn view(&self) -> NodeInfoView {
        self.info@
    }
}

impl Node {
    /// Creates the local node: a fresh id, the current time as its first
    /// heartbeat, and the online status.
    pub fn new(
        name: String,
        ip_address: IpAddress,
        api_port: u16,
        os_info: String,
        version: String,
    ) -> (r: Node)
        ensures
            r@ == (NodeInfoView {
                id: r@.id,
                name: name@,
                ip_address,
                api_port: api_port as int,
                last_heartbeat: r@.last_heartbeat,
                status: NodeStatus::Online,
                os_info: os_info@,
                version: version@,
            }),
            r@.id.len() == 36,
    {
        Node {
            info: NodeInfo {
                id: fresh_id(),
                name,
                ip_address,
                api_port,
                last_heartbeat: now_seconds(),
                status: NodeStatus::Online,
                os_info,
                version,
            },
        }
    }

    /// A read of the node's description.
    pub fn info(&self) -> (r: &NodeInfo)
        ensures
            r@ == self@,
    {
        &self.info
    }

    /// Refreshes the heartbeat to the current time; every other field is
    /// unchanged.
    pub fn update_heartbeat(&mut self)
        ensures
            final(self)@ == (NodeInfoView {
                last_heartbeat: final(self)@.last_heartbeat,
                ..old(self)@
            }),
    {
        self.info.last_heartbeat = now_seconds();
    }

    /// Sets the node's status; every other field is unchanged.
    pub fn update_status(&mut self, status: NodeStatus)
        ensures
            final(self)@ == (NodeInfoView { status, ..old(self)@ }),
    {
        self.info.status = status;
    }

    /// Renders the base URL of this node's API.
    pub fn api_url(&self) -> (s: String)
        ensures
            s@ == spec_api_url(self@),
    {
        self.info.api_url()
    }

    /// Whether the node counts as alive at the current time.
    pub fn is_online(&self, timeout_seconds: i64) -> (r: bool)
        ensures
            exists|now: int| r == #[trigger] spec_online_at(self@, now, timeout_seconds as int),
    {
        let now: i64 = now_seconds();
        let r = self.info.is_online_at(now, timeout_seconds);
        proof {
            assert(r == spec_online_at(self@, now as int, timeout_seconds as int));
        }
        r
    }
}

/// Whether a node's heartbeat at `now` is younger than the timeout.
pub open spec fn spec_online_at(n: NodeInfoView, now: int, timeout_seconds: int) -> bool {
    now - n.last_heartbeat < timeout_seconds
}

} // verus!
