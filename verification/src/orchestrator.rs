//! The virtual fabric: hosts, networks, ports and security groups, and what each host derives from
//! them.

use vstd::prelude::*;

use crate::addr::{fmt_mac, ipv4_text, mac_text, octet, octets_value, power_of_two, Cidr4, Ipv4Addr};
use crate::config::{
    clone_rules, empty_config, ActionName, EncapName, FileConfig, FileConfigView, InterfaceFile,
    InterfaceFileView, NeighborCfg, NeighborCfgView, OverlayCfg, OverlayCfgView, PolicyFile,
    PolicyFileView, PortRule, PortRuleView, TunnelCfg, TunnelCfgView,
};
use crate::error::{result_view, Error};
use crate::lists::{
    distinct, first_index, first_index_is, first_index_properties, flat, flat_contains, flat_step,
    increasing, insert_into_sorted, keyed, keyed_at, keyed_domain, keyed_push, keyed_remove,
    keyed_update, sorted_set, sorted_set_properties,
};
use crate::text::{
    clone_strings, debug_str, debug_text, decimal, hexadecimal, push_decimal, push_hexadecimal,
    same, views,
};

verus! {

/// The first VNI of the range that is kept for dynamically learned segments. Networks that the
/// orchestrator manages lie in `1..EVPN_RESERVED_VNI_BASE`.
pub const EVPN_RESERVED_VNI_BASE: u32 = 0xFF_0000;

/// The base of the policy ids of security groups, above every 24-bit VNI.
pub const SECURITY_GROUP_POLICY_BASE: u32 = 0x100_0000;

/// A physical host that terminates tunnels.
#[derive(Debug, PartialEq, Eq)]
pub struct Host {
    /// Node id.
    pub id: String,
    /// Underlay address: the outer source of tunnels to this host.
    pub vtep_ip: Ipv4Addr,
    /// Underlay egress interface.
    pub underlay_iface: String,
    /// Next-hop MAC address for hosts that tunnel to this one.
    pub underlay_mac: [u8; 6],
    /// Encapsulation this host uses.
    pub encap: EncapName,
    /// UDP port, or `None` for the default of the encapsulation.
    pub udp_port: Option<u16>,
    /// Underlay MTU, or `None` for the default.
    pub underlay_mtu: Option<u16>,
}

/// What a [`Host`] holds.
#[verifier::ext_equal]
pub struct HostView {
    pub id: Seq<char>,
    pub vtep_ip: Ipv4Addr,
    pub underlay_iface: Seq<char>,
    pub underlay_mac: [u8; 6],
    pub encap: EncapName,
    pub udp_port: Option<u16>,
    pub underlay_mtu: Option<u16>,
}

impl View for Host {
    type V = HostView;

    open spec fn view(&self) -> HostView {
        HostView {
            id: self.id@,
            vtep_ip: self.vtep_ip,
            underlay_iface: self.underlay_iface@,
            underlay_mac: self.underlay_mac,
            encap: self.encap,
            udp_port: self.udp_port,
            underlay_mtu: self.underlay_mtu,
        }
    }
}

impl Clone for Host {
    fn clone(&self) -> (r: Self)
        ensures
            r@ == self@,
    {
        Host {
            id: self.id.clone(),
            vtep_ip: self.vtep_ip,
            underlay_iface: self.underlay_iface.clone(),
            underlay_mac: self.underlay_mac,
            encap: self.encap,
            udp_port: self.udp_port,
            underlay_mtu: self.underlay_mtu,
        }
    }
}

/// A virtual network: a tenant segment, identified by its VNI.
#[derive(Debug, PartialEq, Eq)]
pub struct Network {
    /// Segment id, also the id of the policy of its ports.
    pub vni: u32,
    /// Name, also of the policy.
    pub name: String,
    /// Where port addresses are allocated from.
    pub subnet: Cidr4,
    /// Default action of the network's policy.
    pub default_action: ActionName,
    /// Whether the network's policy drops ICMP.
    pub drop_icmp: bool,
}

/// What a [`Network`] holds.
#[verifier::ext_equal]
pub struct NetworkView {
    pub vni: u32,
    pub name: Seq<char>,
    pub subnet: Cidr4,
    pub default_action: ActionName,
    pub drop_icmp: bool,
}

impl View for Network {
    type V = NetworkView;

    open spec fn view(&self) -> NetworkView {
        NetworkView {
            vni: self.vni,
            name: self.name@,
            subnet: self.subnet,
            default_action: self.default_action,
            drop_icmp: self.drop_icmp,
        }
    }
}

impl Clone for Network {
    fn clone(&self) -> (r: Self)
        ensures
            r@ == self@,
    {
        Network {
            vni: self.vni,
            name: self.name.clone(),
            subnet: self.subnet,
            default_action: self.default_action,
            drop_icmp: self.drop_icmp,
        }
    }
}

/// A virtual NIC on a [`Network`], bound to a [`Host`].
#[derive(Debug, PartialEq, Eq)]
pub struct Port {
    /// Stable id.
    pub id: String,
    /// The network it is on.
    pub vni: u32,
    /// The firewall policy, or `None` to use the VNI as the policy id.
    pub policy: Option<u32>,
    /// The host it runs on.
    pub host: String,
    /// Allocated inner address.
    pub ip: Ipv4Addr,
    /// Allocated MAC address.
    pub mac: [u8; 6],
    /// The interface on the host that carries it.
    pub tap: String,
}

/// What a [`Port`] holds.
#[verifier::ext_equal]
pub struct PortView {
    pub id: Seq<char>,
    pub vni: u32,
    pub policy: Option<u32>,
    pub host: Seq<char>,
    pub ip: Ipv4Addr,
    pub mac: [u8; 6],
    pub tap: Seq<char>,
}

impl View for Port {
    type V = PortView;

    open spec fn view(&self) -> PortView {
        PortView {
            id: self.id@,
            vni: self.vni,
            policy: self.policy,
            host: self.host@,
            ip: self.ip,
            mac: self.mac,
            tap: self.tap@,
        }
    }
}

impl Clone for Port {
    fn clone(&self) -> (r: Self)
        ensures
            r@ == self@,
    {
        Port {
            id: self.id.clone(),
            vni: self.vni,
            policy: self.policy,
            host: self.host.clone(),
            ip: self.ip,
            mac: self.mac,
            tap: self.tap.clone(),
        }
    }
}

/// A named firewall rule set.
#[derive(Debug, PartialEq, Eq)]
pub struct SecurityGroup {
    /// Unique name, from which the policy id follows.
    pub name: String,
    /// Verdict for traffic that no rule matches.
    pub default_action: ActionName,
    /// Drop all ICMP.
    pub drop_icmp: bool,
    /// Allow the replies of tracked connections.
    pub stateful: bool,
    /// Source prefixes to drop.
    pub blocklist: Vec<String>,
    /// Rules per protocol and port.
    pub rules: Vec<PortRule>,
}

/// What a [`SecurityGroup`] holds.
#[verifier::ext_equal]
pub struct SecurityGroupView {
    pub name: Seq<char>,
    pub default_action: ActionName,
    pub drop_icmp: bool,
    pub stateful: bool,
    pub blocklist: Seq<Seq<char>>,
    pub rules: Seq<PortRuleView>,
}

impl View for SecurityGroup {
    type V = SecurityGroupView;

    open spec fn view(&self) -> SecurityGroupView {
        SecurityGroupView {
            name: self.name@,
            default_action: self.default_action,
            drop_icmp: self.drop_icmp,
            stateful: self.stateful,
            blocklist: views(self.blocklist@),
            rules: views(self.rules@),
        }
    }
}

impl Clone for SecurityGroup {
    fn clone(&self) -> (r: Self)
        ensures
            r@ == self@,
    {
        SecurityGroup {
            name: self.name.clone(),
            default_action: self.default_action,
            drop_icmp: self.drop_icmp,
            stateful: self.stateful,
            blocklist: clone_strings(&self.blocklist),
            rules: clone_rules(&self.rules),
        }
    }
}

/// The whole virtual fabric.
pub struct Topology {
    hosts: Vec<Host>,
    networks: Vec<Network>,
    ports: Vec<Port>,
    security_groups: Vec<SecurityGroup>,
}

/// What a [`Topology`] holds: hosts by id, networks by VNI, ports in order of creation, and
/// security groups by name.
#[verifier::ext_equal]
pub struct TopologyView {
    pub hosts: Map<Seq<char>, HostView>,
    pub networks: Map<u32, NetworkView>,
    pub ports: Seq<PortView>,
    pub security_groups: Map<Seq<char>, SecurityGroupView>,
}

// ---------------------------------------------------------------------------
// Derived identities
// ---------------------------------------------------------------------------

/// 32-bit FNV-1a.
pub open spec fn fnv1a(bytes: Seq<u8>) -> u32
    decreases bytes.len(),
{
    if bytes.len() == 0 {
        0x811c_9dc5
    } else {
        (fnv1a(bytes.drop_last()) ^ bytes.last() as u32).wrapping_mul(0x0100_0193)
    }
}

/// The policy id of the security group with the given name: its hash, folded into the band above
/// the VNIs.
pub open spec fn policy_id_of(name: Seq<char>) -> u32 {
    (0x100_0000 + fnv1a(vstd::utf8::encode_utf8(name)) % 0xFF00_0000) as u32
}

/// Derives a security group's policy id from its name.
pub fn security_group_policy_id(name: &str) -> (r: u32)
    ensures
        r == policy_id_of(name@),
        r >= SECURITY_GROUP_POLICY_BASE,
{
    let bytes = name.as_bytes();
    let mut hash: u32 = 0x811c_9dc5;
    for i in 0..bytes.len()
        invariant
            hash == fnv1a(bytes@.take(i as int)),
    {
        assert(bytes@.take(i + 1).drop_last() =~= bytes@.take(i as int));
        hash = hash ^ bytes[i] as u32;
        hash = hash.wrapping_mul(0x0100_0193);
    }
    assert(bytes@.take(bytes@.len() as int) =~= bytes@);
    let span: u32 = u32::MAX - SECURITY_GROUP_POLICY_BASE + 1;
    SECURITY_GROUP_POLICY_BASE + (hash % span)
}

/// A security group's policy id lies above every 24-bit VNI.
pub proof fn policy_id_above_vnis(name: Seq<char>, vni: u32)
    requires
        vni <= 0xFF_FFFF,
    ensures
        policy_id_of(name) > vni,
        policy_id_of(name) >= SECURITY_GROUP_POLICY_BASE,
{
}

/// The MAC address derived from an inner address: `02:00`, then the four octets.
pub open spec fn mac_of(ip: Ipv4Addr) -> [u8; 6] {
    [
        2u8,
        0u8,
        octet(ip.bits, 0),
        octet(ip.bits, 1),
        octet(ip.bits, 2),
        octet(ip.bits, 3),
    ]
}

/// Derives a locally administered MAC address from an inner address.
pub fn mac_for(ip: Ipv4Addr) -> (r: [u8; 6])
    ensures
        r == mac_of(ip),
{
    let o = ip.octets();
    [2, 0, o[0], o[1], o[2], o[3]]
}

/// Different addresses get different MAC addresses.
pub proof fn mac_of_injective(a: Ipv4Addr, b: Ipv4Addr)
    requires
        mac_of(a) == mac_of(b),
    ensures
        a == b,
{
    assert(mac_of(a)[2] == mac_of(b)[2]);
    assert(mac_of(a)[3] == mac_of(b)[3]);
    assert(mac_of(a)[4] == mac_of(b)[4]);
    assert(mac_of(a)[5] == mac_of(b)[5]);
}

/// The id of the port with the given address on the given network.
pub open spec fn port_id_text(vni: u32, ip: Ipv4Addr) -> Seq<char> {
    "port-"@ + decimal(vni as nat) + "-"@ + ipv4_text(ip)
}

fn port_id(vni: u32, ip: Ipv4Addr) -> (r: String)
    ensures
        r@ == port_id_text(vni, ip),
{
    let mut s = String::from_str("port-");
    push_decimal(&mut s, vni as u64);
    s.append("-");
    ip.push_to(&mut s);
    s
}

impl PortView {
    /// The policy that applies to the port: the one set, else the VNI.
    pub open spec fn effective_policy(self) -> u32 {
        match self.policy {
            Some(p) => p,
            None => self.vni,
        }
    }
}

impl Port {
    /// The effective policy id: the one set, else the VNI.
    pub fn effective_policy(&self) -> (r: u32)
        ensures
            r == self@.effective_policy(),
    {
        match self.policy {
            Some(p) => p,
            None => self.vni,
        }
    }
}

impl SecurityGroup {
    /// The policy id, a function of the name.
    pub fn policy_id(&self) -> (r: u32)
        ensures
            r == policy_id_of(self.name@),
    {
        security_group_policy_id(self.name.as_str())
    }
}

// ---------------------------------------------------------------------------
// Invariants
// ---------------------------------------------------------------------------

spec fn host_keys(s: Seq<Host>) -> Seq<Seq<char>> {
    Seq::new(s.len(), |i: int| s[i].id@)
}

spec fn network_keys(s: Seq<Network>) -> Seq<u32> {
    Seq::new(s.len(), |i: int| s[i].vni)
}

spec fn group_keys(s: Seq<SecurityGroup>) -> Seq<Seq<char>> {
    Seq::new(s.len(), |i: int| s[i].name@)
}

impl View for Topology {
    type V = TopologyView;

    closed spec fn view(&self) -> TopologyView {
        TopologyView {
            hosts: keyed(host_keys(self.hosts@), views(self.hosts@)),
            networks: keyed(network_keys(self.networks@), views(self.networks@)),
            ports: views(self.ports@),
            security_groups: keyed(
                group_keys(self.security_groups@),
                views(self.security_groups@),
            ),
        }
    }
}

impl Topology {
    /// Each host, network and group is stored once, and every subnet is usable.
    pub closed spec fn inv(&self) -> bool {
        &&& distinct(host_keys(self.hosts@))
        &&& distinct(network_keys(self.networks@))
        &&& distinct(group_keys(self.security_groups@))
        &&& forall|i: int|
            0 <= i < self.networks@.len() ==> (#[trigger] self.networks@[i]).subnet.valid()
    }
}

impl TopologyView {
    /// Every entry is found under its own key, and every subnet is usable.
    pub open spec fn keys_match(self) -> bool {
        &&& forall|k: Seq<char>| #[trigger]
            self.hosts.dom().contains(k) ==> self.hosts[k].id == k
        &&& forall|v: u32| #[trigger]
            self.networks.dom().contains(v) ==> self.networks[v].vni == v
                && self.networks[v].subnet.valid()
        &&& forall|k: Seq<char>| #[trigger]
            self.security_groups.dom().contains(k) ==> self.security_groups[k].name == k
    }

    /// What references refer to exists, and what must be unique is.
    pub open spec fn wf(self) -> bool {
        &&& self.keys_match()
        // Networks lie outside the reserved range.
        &&& forall|v: u32| #[trigger]
            self.networks.dom().contains(v) ==> 0 < v < EVPN_RESERVED_VNI_BASE
        // A port is on a network and a host that exist, under the id of its address.
        &&& forall|i: int|
            0 <= i < self.ports.len() ==> {
                let p = #[trigger] self.ports[i];
                &&& self.networks.dom().contains(p.vni)
                &&& self.hosts.dom().contains(p.host)
                &&& p.id == port_id_text(p.vni, p.ip)
            }
        // No two ports share an interface, or an address on one network.
        &&& forall|i: int, j: int|
            0 <= i < j < self.ports.len() ==> {
                let p = #[trigger] self.ports[i];
                let q = #[trigger] self.ports[j];
                &&& !(p.host == q.host && p.tap == q.tap)
                &&& !(p.vni == q.vni && p.ip == q.ip)
            }
        // Groups have names, and no two share a policy id.
        &&& forall|k: Seq<char>| #[trigger]
            self.security_groups.dom().contains(k) ==> k.len() > 0
        &&& forall|a: Seq<char>, b: Seq<char>|
            #![trigger self.security_groups.dom().contains(a), self.security_groups.dom().contains(b)]
            self.security_groups.dom().contains(a) && self.security_groups.dom().contains(b)
                && policy_id_of(a) == policy_id_of(b) ==> a == b
    }
}

impl Topology {
    /// The invariant says that the view's entries stand under their own keys.
    pub proof fn inv_keys(&self)
        requires
            self.inv(),
        ensures
            self@.keys_match(),
    {
        let t = self@;
        keyed_domain(host_keys(self.hosts@), views(self.hosts@));
        keyed_domain(network_keys(self.networks@), views(self.networks@));
        keyed_domain(group_keys(self.security_groups@), views(self.security_groups@));
        assert forall|k: Seq<char>| #[trigger] t.hosts.dom().contains(k) implies t.hosts[k].id
            == k by {
            let ks = host_keys(self.hosts@);
            let i = choose|i: int| 0 <= i < ks.len() && ks[i] == k;
            keyed_at(ks, views(self.hosts@), i);
        }
        assert forall|v: u32| #[trigger] t.networks.dom().contains(v) implies t.networks[v].vni == v
            && t.networks[v].subnet.valid() by {
            let ks = network_keys(self.networks@);
            let i = choose|i: int| 0 <= i < ks.len() && ks[i] == v;
            keyed_at(ks, views(self.networks@), i);
            assert(self.networks@[i].subnet.valid());
        }
        assert forall|k: Seq<char>| #[trigger]
            t.security_groups.dom().contains(k) implies t.security_groups[k].name == k by {
            let ks = group_keys(self.security_groups@);
            let i = choose|i: int| 0 <= i < ks.len() && ks[i] == k;
            keyed_at(ks, views(self.security_groups@), i);
        }
    }

    fn find_host(&self, id: &str) -> (r: Option<usize>)
        requires
            self.inv(),
        ensures
            match r {
                Some(i) => {
                    &&& i < self.hosts@.len()
                    &&& self.hosts@[i as int].id@ == id@
                    &&& self@.hosts.dom().contains(id@)
                    &&& self@.hosts[id@] == self.hosts@[i as int]@
                },
                None => !self@.hosts.dom().contains(id@) && !host_keys(self.hosts@).contains(id@),
            },
    {
        let ghost ks = host_keys(self.hosts@);
        proof {
            keyed_domain(ks, views(self.hosts@));
        }
        for i in 0..self.hosts.len()
            invariant
                self.inv(),
                ks == host_keys(self.hosts@),
                forall|j: int| 0 <= j < i ==> ks[j] != id@,
        {
            if same(self.hosts[i].id.as_str(), id) {
                proof {
                    keyed_at(ks, views(self.hosts@), i as int);
                }
                return Some(i);
            }
        }
        None
    }

    fn find_network(&self, vni: u32) -> (r: Option<usize>)
        requires
            self.inv(),
        ensures
            match r {
                Some(i) => {
                    &&& i < self.networks@.len()
                    &&& self.networks@[i as int].vni == vni
                    &&& self@.networks.dom().contains(vni)
                    &&& self@.networks[vni] == self.networks@[i as int]@
                },
                None => !self@.networks.dom().contains(vni) && !network_keys(
                    self.networks@,
                ).contains(vni),
            },
    {
        let ghost ks = network_keys(self.networks@);
        proof {
            keyed_domain(ks, views(self.networks@));
        }
        for i in 0..self.networks.len()
            invariant
                self.inv(),
                ks == network_keys(self.networks@),
                forall|j: int| 0 <= j < i ==> ks[j] != vni,
        {
            if self.networks[i].vni == vni {
                proof {
                    keyed_at(ks, views(self.networks@), i as int);
                }
                return Some(i);
            }
        }
        None
    }

    fn find_group(&self, name: &str) -> (r: Option<usize>)
        requires
            self.inv(),
        ensures
            match r {
                Some(i) => {
                    &&& i < self.security_groups@.len()
                    &&& self.security_groups@[i as int].name@ == name@
                    &&& self@.security_groups.dom().contains(name@)
                    &&& self@.security_groups[name@] == self.security_groups@[i as int]@
                },
                None => !self@.security_groups.dom().contains(name@) && !group_keys(
                    self.security_groups@,
                ).contains(name@),
            },
    {
        let ghost ks = group_keys(self.security_groups@);
        proof {
            keyed_domain(ks, views(self.security_groups@));
        }
        for i in 0..self.security_groups.len()
            invariant
                self.inv(),
                ks == group_keys(self.security_groups@),
                forall|j: int| 0 <= j < i ==> ks[j] != name@,
        {
            if same(self.security_groups[i].name.as_str(), name) {
                proof {
                    keyed_at(ks, views(self.security_groups@), i as int);
                }
                return Some(i);
            }
        }
        None
    }

    /// Finds a group by its policy id.
    fn find_group_by_policy(&self, pid: u32) -> (r: Option<usize>)
        requires
            self.inv(),
        ensures
            match r {
                Some(i) => {
                    &&& i < self.security_groups@.len()
                    &&& policy_id_of(self.security_groups@[i as int].name@) == pid
                    &&& self@.security_groups.dom().contains(self.security_groups@[i as int].name@)
                    &&& self@.security_groups[self.security_groups@[i as int].name@]
                        == self.security_groups@[i as int]@
                },
                None => forall|k: Seq<char>| #[trigger]
                    self@.security_groups.dom().contains(k) ==> policy_id_of(k) != pid,
            },
    {
        let ghost ks = group_keys(self.security_groups@);
        proof {
            keyed_domain(ks, views(self.security_groups@));
        }
        for i in 0..self.security_groups.len()
            invariant
                self.inv(),
                ks == group_keys(self.security_groups@),
                forall|j: int| 0 <= j < i ==> policy_id_of(#[trigger] ks[j]) != pid,
        {
            if self.security_groups[i].policy_id() == pid {
                proof {
                    keyed_at(ks, views(self.security_groups@), i as int);
                }
                return Some(i);
            }
        }
        None
    }
}

// ---------------------------------------------------------------------------
// Hosts and networks
// ---------------------------------------------------------------------------

/// Ports on the given host.
pub open spec fn on_host(id: Seq<char>) -> spec_fn(PortView) -> bool {
    |p: PortView| p.host == id
}

/// Ports on the given network.
pub open spec fn on_network(vni: u32) -> spec_fn(PortView) -> bool {
    |p: PortView| p.vni == vni
}

/// Ports bound to the given policy.
pub open spec fn bound_to(pid: u32) -> spec_fn(PortView) -> bool {
    |p: PortView| p.policy == Some(pid)
}

/// Ports with the given id.
pub open spec fn with_id(id: Seq<char>) -> spec_fn(PortView) -> bool {
    |p: PortView| p.id == id
}

/// Whether some port satisfies `f`.
pub open spec fn any_port(ports: Seq<PortView>, f: spec_fn(PortView) -> bool) -> bool {
    first_index(ports, f) < ports.len()
}

/// The text for a VNI in the reserved range.
pub open spec fn reserved_text(vni: u32) -> Seq<char> {
    "network vni 0x"@ + hexadecimal(vni as nat)
        + " is reserved for the EVPN/FPM control-plane path (>= 0x"@ + hexadecimal(
        EVPN_RESERVED_VNI_BASE as nat,
    ) + "); orchestrator-managed networks must use 1..0x"@ + hexadecimal(
        EVPN_RESERVED_VNI_BASE as nat,
    )
}

impl TopologyView {
    /// The fabric without anything in it.
    pub open spec fn empty() -> TopologyView {
        TopologyView {
            hosts: Map::empty(),
            networks: Map::empty(),
            ports: Seq::empty(),
            security_groups: Map::empty(),
        }
    }

    /// The fabric with the host, in place of one with the same id.
    pub open spec fn add_host(self, h: HostView) -> TopologyView {
        TopologyView { hosts: self.hosts.insert(h.id, h), ..self }
    }

    /// Adding a network: the fabric after it, and the outcome.
    pub open spec fn add_network(self, n: NetworkView) -> (TopologyView, Result<(), Seq<char>>) {
        if n.vni == 0 {
            (self, Err("network vni must be non-zero"@))
        } else if n.vni >= EVPN_RESERVED_VNI_BASE {
            (self, Err(reserved_text(n.vni)))
        } else if self.networks.dom().contains(n.vni) {
            (self, Err("network vni "@ + decimal(n.vni as nat) + " already exists"@))
        } else {
            (TopologyView { networks: self.networks.insert(n.vni, n), ..self }, Ok(()))
        }
    }

    /// Removing a host: refused while a port is on it; else whether it was there.
    pub open spec fn remove_host(self, id: Seq<char>) -> (TopologyView, Result<bool, Seq<char>>) {
        let i = first_index(self.ports, on_host(id));
        if i < self.ports.len() {
            (
                self,
                Err(
                    "host "@ + debug_text(id) + " still has port "@ + debug_text(self.ports[i].id)
                        + "; migrate or remove it first"@,
                ),
            )
        } else {
            (
                TopologyView { hosts: self.hosts.remove(id), ..self },
                Ok(self.hosts.dom().contains(id)),
            )
        }
    }

    /// Removing a network: refused while a port is on it; else whether it was there.
    pub open spec fn remove_network(self, vni: u32) -> (TopologyView, Result<bool, Seq<char>>) {
        let i = first_index(self.ports, on_network(vni));
        if i < self.ports.len() {
            (
                self,
                Err(
                    "network "@ + decimal(vni as nat) + " still has port "@ + debug_text(
                        self.ports[i].id,
                    ) + "; remove it first"@,
                ),
            )
        } else {
            (
                TopologyView { networks: self.networks.remove(vni), ..self },
                Ok(self.networks.dom().contains(vni)),
            )
        }
    }
}

/// Finds the first port on a host.
fn first_port_on_host(ports: &Vec<Port>, host: &str) -> (r: Option<usize>)
    ensures
        match r {
            Some(i) => i < ports@.len() && first_index(views(ports@), on_host(host@)) == i,
            None => first_index(views(ports@), on_host(host@)) == ports@.len(),
        },
{
    for i in 0..ports.len()
        invariant
            forall|j: int| 0 <= j < i ==> !on_host(host@)(#[trigger] views(ports@)[j]),
    {
        if same(ports[i].host.as_str(), host) {
            proof {
                first_index_is(views(ports@), on_host(host@), i as int);
            }
            return Some(i);
        }
    }
    proof {
        first_index_is(views(ports@), on_host(host@), ports@.len() as int);
    }
    None
}

pub(crate) fn first_port_on_network(ports: &Vec<Port>, vni: u32) -> (r: Option<usize>)
    ensures
        match r {
            Some(i) => i < ports@.len() && first_index(views(ports@), on_network(vni)) == i,
            None => first_index(views(ports@), on_network(vni)) == ports@.len(),
        },
{
    for i in 0..ports.len()
        invariant
            forall|j: int| 0 <= j < i ==> !on_network(vni)(#[trigger] views(ports@)[j]),
    {
        if ports[i].vni == vni {
            proof {
                first_index_is(views(ports@), on_network(vni), i as int);
            }
            return Some(i);
        }
    }
    proof {
        first_index_is(views(ports@), on_network(vni), ports@.len() as int);
    }
    None
}

fn first_port_bound_to(ports: &Vec<Port>, pid: u32) -> (r: Option<usize>)
    ensures
        match r {
            Some(i) => i < ports@.len() && first_index(views(ports@), bound_to(pid)) == i,
            None => first_index(views(ports@), bound_to(pid)) == ports@.len(),
        },
{
    for i in 0..ports.len()
        invariant
            forall|j: int| 0 <= j < i ==> !bound_to(pid)(#[trigger] views(ports@)[j]),
    {
        let bound = match ports[i].policy {
            Some(p) => p == pid,
            None => false,
        };
        if bound {
            proof {
                first_index_is(views(ports@), bound_to(pid), i as int);
            }
            return Some(i);
        }
    }
    proof {
        first_index_is(views(ports@), bound_to(pid), ports@.len() as int);
    }
    None
}

/// Finds the first port with the given id.
pub(crate) fn first_port_with_id(ports: &Vec<Port>, id: &str) -> (r: Option<usize>)
    ensures
        match r {
            Some(i) => i < ports@.len() && first_index(views(ports@), with_id(id@)) == i,
            None => first_index(views(ports@), with_id(id@)) == ports@.len(),
        },
{
    for i in 0..ports.len()
        invariant
            forall|j: int| 0 <= j < i ==> !with_id(id@)(#[trigger] views(ports@)[j]),
    {
        if same(ports[i].id.as_str(), id) {
            proof {
                first_index_is(views(ports@), with_id(id@), i as int);
            }
            return Some(i);
        }
    }
    proof {
        first_index_is(views(ports@), with_id(id@), ports@.len() as int);
    }
    None
}

impl Topology {
    /// An empty fabric.
    pub fn new() -> (r: Topology)
        ensures
            r.inv(),
            r@ == TopologyView::empty(),
            r@.wf(),
    {
        let r = Topology {
            hosts: Vec::new(),
            networks: Vec::new(),
            ports: Vec::new(),
            security_groups: Vec::new(),
        };
        assert(r@ =~= TopologyView::empty());
        r
    }

    /// All hosts, in no particular order.
    pub fn hosts(&self) -> (r: &Vec<Host>)
        requires
            self.inv(),
        ensures
            keyed(Seq::new(r@.len(), |i: int| r@[i].id@), views(r@)) == self@.hosts,
            distinct(Seq::new(r@.len(), |i: int| r@[i].id@)),
    {
        assert(Seq::new(self.hosts@.len(), |i: int| self.hosts@[i].id@) =~= host_keys(self.hosts@));
        &self.hosts
    }

    /// All networks, in no particular order.
    pub fn networks(&self) -> (r: &Vec<Network>)
        requires
            self.inv(),
        ensures
            keyed(Seq::new(r@.len(), |i: int| r@[i].vni), views(r@)) == self@.networks,
            distinct(Seq::new(r@.len(), |i: int| r@[i].vni)),
    {
        assert(Seq::new(self.networks@.len(), |i: int| self.networks@[i].vni) =~= network_keys(
            self.networks@,
        ));
        &self.networks
    }

    /// All ports, in order of creation.
    pub fn ports(&self) -> (r: &Vec<Port>)
        ensures
            views(r@) == self@.ports,
    {
        &self.ports
    }

    /// All security groups, in no particular order.
    pub fn security_groups(&self) -> (r: &Vec<SecurityGroup>)
        requires
            self.inv(),
        ensures
            keyed(Seq::new(r@.len(), |i: int| r@[i].name@), views(r@)) == self@.security_groups,
            distinct(Seq::new(r@.len(), |i: int| r@[i].name@)),
    {
        assert(Seq::new(self.security_groups@.len(), |i: int| self.security_groups@[i].name@)
            =~= group_keys(self.security_groups@));
        &self.security_groups
    }

    /// The host with the given id.
    pub fn host(&self, id: &str) -> (r: Option<&Host>)
        requires
            self.inv(),
        ensures
            match r {
                Some(h) => self@.hosts.dom().contains(id@) && self@.hosts[id@] == h@,
                None => !self@.hosts.dom().contains(id@),
            },
    {
        match self.find_host(id) {
            Some(i) => Some(&self.hosts[i]),
            None => None,
        }
    }

    /// The network with the given VNI.
    pub fn network(&self, vni: u32) -> (r: Option<&Network>)
        requires
            self.inv(),
        ensures
            match r {
                Some(n) => self@.networks.dom().contains(vni) && self@.networks[vni] == n@,
                None => !self@.networks.dom().contains(vni),
            },
    {
        match self.find_network(vni) {
            Some(i) => Some(&self.networks[i]),
            None => None,
        }
    }

    /// The first port with the given id.
    pub fn port(&self, id: &str) -> (r: Option<&Port>)
        requires
            self.inv(),
        ensures
            ({
                let i = first_index(self@.ports, with_id(id@));
                match r {
                    Some(p) => i < self@.ports.len() && p@ == self@.ports[i],
                    None => i >= self@.ports.len(),
                }
            }),
    {
        match first_port_with_id(&self.ports, id) {
            Some(i) => Some(&self.ports[i]),
            None => None,
        }
    }

    /// Looks up a security group by name.
    pub fn security_group(&self, name: &str) -> (r: Option<&SecurityGroup>)
        requires
            self.inv(),
        ensures
            match r {
                Some(g) => self@.security_groups.dom().contains(name@)
                    && self@.security_groups[name@] == g@,
                None => !self@.security_groups.dom().contains(name@),
            },
    {
        match self.find_group(name) {
            Some(i) => Some(&self.security_groups[i]),
            None => None,
        }
    }

    /// Registers a host, in place of one with the same id.
    pub fn add_host(&mut self, host: Host)
        requires
            old(self).inv(),
        ensures
            final(self).inv(),
            final(self)@ == old(self)@.add_host(host@),
    {
        let ghost ks = host_keys(self.hosts@);
        let ghost vs = views(self.hosts@);
        match self.find_host(host.id.as_str()) {
            Some(i) => {
                proof {
                    keyed_update(ks, vs, i as int, host@);
                }
                self.hosts[i] = host;
                assert(host_keys(self.hosts@) =~= ks);
                assert(views(self.hosts@) =~= vs.update(i as int, host@));
            },
            None => {
                proof {
                    keyed_push(ks, vs, host.id@, host@);
                }
                self.hosts.push(host);
                assert(host_keys(self.hosts@) =~= ks.push(host.id@));
                assert(views(self.hosts@) =~= vs.push(host@));
            },
        }
        assert(self@ =~= old(self)@.add_host(host@));
    }

    /// Defines a network. Fails for a zero VNI, a VNI in the reserved range, or one in use.
    pub fn add_network(&mut self, network: Network) -> (r: Result<(), Error>)
        requires
            old(self).inv(),
            network.subnet.valid(),
        ensures
            final(self).inv(),
            (final(self)@, result_view(r)) == old(self)@.add_network(network@),
    {
        if network.vni == 0 {
            return Err(Error::new(String::from_str("network vni must be non-zero")));
        }
        if network.vni >= EVPN_RESERVED_VNI_BASE {
            let mut s = String::from_str("network vni 0x");
            push_hexadecimal(&mut s, network.vni as u64);
            s.append(" is reserved for the EVPN/FPM control-plane path (>= 0x");
            push_hexadecimal(&mut s, EVPN_RESERVED_VNI_BASE as u64);
            s.append("); orchestrator-managed networks must use 1..0x");
            push_hexadecimal(&mut s, EVPN_RESERVED_VNI_BASE as u64);
            return Err(Error::new(s));
        }
        if self.find_network(network.vni).is_some() {
            let mut s = String::from_str("network vni ");
            push_decimal(&mut s, network.vni as u64);
            s.append(" already exists");
            return Err(Error::new(s));
        }
        let ghost ks = network_keys(self.networks@);
        let ghost vs = views(self.networks@);
        proof {
            keyed_push(ks, vs, network.vni, network@);
        }
        self.networks.push(network);
        assert(network_keys(self.networks@) =~= ks.push(network.vni));
        assert(views(self.networks@) =~= vs.push(network@));
        assert(self@ =~= old(self)@.add_network(network@).0);
        Ok(())
    }

    /// Retires a host. Fails while a port is on it. Tells whether it was there.
    pub fn remove_host(&mut self, id: &str) -> (r: Result<bool, Error>)
        requires
            old(self).inv(),
        ensures
            final(self).inv(),
            (final(self)@, result_view(r)) == old(self)@.remove_host(id@),
    {
        match first_port_on_host(&self.ports, id) {
            Some(i) => {
                let mut s = String::from_str("host ");
                s.append(debug_str(id).as_str());
                s.append(" still has port ");
                s.append(debug_str(self.ports[i].id.as_str()).as_str());
                s.append("; migrate or remove it first");
                return Err(Error::new(s));
            },
            None => {},
        }
        match self.find_host(id) {
            Some(i) => {
                let ghost ks = host_keys(self.hosts@);
                let ghost vs = views(self.hosts@);
                proof {
                    keyed_remove(ks, vs, i as int);
                }
                let gone = self.hosts.remove(i);
                assert(host_keys(self.hosts@) =~= ks.remove(i as int));
                assert(views(self.hosts@) =~= vs.remove(i as int));
                assert(self@ =~= old(self)@.remove_host(id@).0);
                Ok(true)
            },
            None => {
                assert(self@ =~= old(self)@.remove_host(id@).0);
                Ok(false)
            },
        }
    }

    /// Decommissions a network. Fails while a port is on it. Tells whether it was there.
    pub fn remove_network(&mut self, vni: u32) -> (r: Result<bool, Error>)
        requires
            old(self).inv(),
        ensures
            final(self).inv(),
            (final(self)@, result_view(r)) == old(self)@.remove_network(vni),
    {
        match first_port_on_network(&self.ports, vni) {
            Some(i) => {
                let mut s = String::from_str("network ");
                push_decimal(&mut s, vni as u64);
                s.append(" still has port ");
                s.append(debug_str(self.ports[i].id.as_str()).as_str());
                s.append("; remove it first");
                return Err(Error::new(s));
            },
            None => {},
        }
        match self.find_network(vni) {
            Some(i) => {
                let ghost ks = network_keys(self.networks@);
                let ghost vs = views(self.networks@);
                let ghost before = self.networks@;
                proof {
                    keyed_remove(ks, vs, i as int);
                }
                let gone = self.networks.remove(i);
                assert(network_keys(self.networks@) =~= ks.remove(i as int));
                assert(views(self.networks@) =~= vs.remove(i as int));
                assert forall|j: int| 0 <= j < self.networks@.len() implies (
                #[trigger] self.networks@[j]).subnet.valid() by {
                    assert(self.networks@[j] == before[if j < i {
                        j
                    } else {
                        j + 1
                    }]);
                }
                assert(self@ =~= old(self)@.remove_network(vni).0);
                Ok(true)
            },
            None => {
                assert(self@ =~= old(self)@.remove_network(vni).0);
                Ok(false)
            },
        }
    }
}

// ---------------------------------------------------------------------------
// Security groups
// ---------------------------------------------------------------------------

/// The text for two groups with one policy id.
pub open spec fn collision_text(name: Seq<char>, existing: Seq<char>) -> Seq<char> {
    "security group "@ + debug_text(name) + " hashes to the same policy_id "@ + decimal(
        policy_id_of(name) as nat,
    ) + " as "@ + debug_text(existing) + "; rename one"@
}

impl TopologyView {
    /// The given name is that of a group with the given policy id.
    pub open spec fn is_group_of(self, pid: u32, name: Seq<char>) -> bool {
        self.security_groups.dom().contains(name) && policy_id_of(name) == pid
    }

    /// Whether some group has the given policy id.
    pub open spec fn has_group_of(self, pid: u32) -> bool {
        exists|name: Seq<char>| self.is_group_of(pid, name)
    }

    /// Whether `(after, outcome)` is what adding a group leads to. Where two groups share a policy
    /// id, the text may name any group that has it.
    pub open spec fn add_security_group(
        self,
        g: SecurityGroupView,
        after: TopologyView,
        outcome: Result<(), Seq<char>>,
    ) -> bool {
        if g.name.len() == 0 {
            after == self && outcome == Err::<(), Seq<char>>(
                "security group name must not be empty"@,
            )
        } else if self.security_groups.dom().contains(g.name) {
            after == self && outcome == Err::<(), Seq<char>>(
                "security group "@ + debug_text(g.name) + " already exists"@,
            )
        } else if self.has_group_of(policy_id_of(g.name)) {
            &&& after == self
            &&& exists|name: Seq<char>| #[trigger]
                self.is_group_of(policy_id_of(g.name), name) && outcome == Err::<(), Seq<char>>(
                    collision_text(g.name, name),
                )
        } else {
            &&& after == TopologyView {
                security_groups: self.security_groups.insert(g.name, g),
                ..self
            }
            &&& outcome == Ok::<(), Seq<char>>(())
        }
    }

    /// Removing a group: refused while a port is bound to it; else whether it was there.
    pub open spec fn remove_security_group(self, name: Seq<char>) -> (
        TopologyView,
        Result<bool, Seq<char>>,
    ) {
        let i = first_index(self.ports, bound_to(policy_id_of(name)));
        if !self.security_groups.dom().contains(name) {
            (self, Ok(false))
        } else if i < self.ports.len() {
            (
                self,
                Err(
                    "security group "@ + debug_text(name) + " still bound by port "@ + debug_text(
                        self.ports[i].id,
                    ) + "; rebind or remove it first"@,
                ),
            )
        } else {
            (
                TopologyView { security_groups: self.security_groups.remove(name), ..self },
                Ok(true),
            )
        }
    }

    /// The fabric with the policy of port `i` replaced.
    pub open spec fn with_policy(self, i: int, policy: Option<u32>) -> TopologyView {
        TopologyView {
            ports: self.ports.update(i, PortView { policy, ..self.ports[i] }),
            ..self
        }
    }

    /// Binding a port to a group, or clearing the binding.
    pub open spec fn set_port_security_group(
        self,
        port_id: Seq<char>,
        group: Option<Seq<char>>,
    ) -> (TopologyView, Result<PortView, Seq<char>>) {
        let i = first_index(self.ports, with_id(port_id));
        match group {
            Some(name) if !self.security_groups.dom().contains(name) => (
                self,
                Err("unknown security group "@ + debug_text(name)),
            ),
            _ => if i >= self.ports.len() {
                (self, Err("unknown port "@ + debug_text(port_id)))
            } else {
                let policy = match group {
                    Some(name) => Some(policy_id_of(name)),
                    None => None,
                };
                (self.with_policy(i, policy), Ok(PortView { policy, ..self.ports[i] }))
            },
        }
    }
}

impl Topology {
    /// Registers a group. Fails on an empty name, a name in use, or a policy id in use.
    pub fn add_security_group(&mut self, sg: SecurityGroup) -> (r: Result<(), Error>)
        requires
            old(self).inv(),
        ensures
            final(self).inv(),
            old(self)@.add_security_group(sg@, final(self)@, result_view(r)),
    {
        if sg.name.as_str().is_empty() {
            return Err(Error::new(String::from_str("security group name must not be empty")));
        }
        if self.find_group(sg.name.as_str()).is_some() {
            let mut s = String::from_str("security group ");
            s.append(debug_str(sg.name.as_str()).as_str());
            s.append(" already exists");
            return Err(Error::new(s));
        }
        let pid: u32 = sg.policy_id();
        match self.find_group_by_policy(pid) {
            Some(i) => {
                let mut s = String::from_str("security group ");
                s.append(debug_str(sg.name.as_str()).as_str());
                s.append(" hashes to the same policy_id ");
                push_decimal(&mut s, pid as u64);
                s.append(" as ");
                s.append(debug_str(self.security_groups[i].name.as_str()).as_str());
                s.append("; rename one");
                assert(self@.is_group_of(pid, self.security_groups@[i as int].name@));
                return Err(Error::new(s));
            },
            None => {},
        }
        let ghost ks = group_keys(self.security_groups@);
        let ghost vs = views(self.security_groups@);
        proof {
            keyed_push(ks, vs, sg.name@, sg@);
            assert(!self@.has_group_of(pid));
        }
        self.security_groups.push(sg);
        assert(group_keys(self.security_groups@) =~= ks.push(sg.name@));
        assert(views(self.security_groups@) =~= vs.push(sg@));
        assert(self@ =~= (TopologyView {
            security_groups: old(self)@.security_groups.insert(sg.name@, sg@),
            ..old(self)@
        }));
        Ok(())
    }

    /// Removes a group. Fails while a port is bound to it. Tells whether it was there.
    pub fn remove_security_group(&mut self, name: &str) -> (r: Result<bool, Error>)
        requires
            old(self).inv(),
        ensures
            final(self).inv(),
            (final(self)@, result_view(r)) == old(self)@.remove_security_group(name@),
    {
        let g: usize = match self.find_group(name) {
            Some(g) => g,
            None => {
                return Ok(false);
            },
        };
        let pid: u32 = self.security_groups[g].policy_id();
        match first_port_bound_to(&self.ports, pid) {
            Some(i) => {
                let mut s = String::from_str("security group ");
                s.append(debug_str(name).as_str());
                s.append(" still bound by port ");
                s.append(debug_str(self.ports[i].id.as_str()).as_str());
                s.append("; rebind or remove it first");
                return Err(Error::new(s));
            },
            None => {},
        }
        let ghost ks = group_keys(self.security_groups@);
        let ghost vs = views(self.security_groups@);
        proof {
            keyed_remove(ks, vs, g as int);
        }
        let gone = self.security_groups.remove(g);
        assert(group_keys(self.security_groups@) =~= ks.remove(g as int));
        assert(views(self.security_groups@) =~= vs.remove(g as int));
        assert(self@ =~= old(self)@.remove_security_group(name@).0);
        Ok(true)
    }

    /// Binds a port to a group by name, or clears its binding. Fails on an unknown group or port.
    pub fn set_port_security_group(&mut self, port_id: &str, group: Option<&str>) -> (r: Result<
        Port,
        Error,
    >)
        requires
            old(self).inv(),
        ensures
            final(self).inv(),
            (final(self)@, result_view(r)) == old(self)@.set_port_security_group(
                port_id@,
                match group {
                    Some(g) => Some(g@),
                    None => None,
                },
            ),
    {
        let policy: Option<u32> = match group {
            Some(name) => {
                match self.find_group(name) {
                    Some(g) => Some(self.security_groups[g].policy_id()),
                    None => {
                        let mut s = String::from_str("unknown security group ");
                        s.append(debug_str(name).as_str());
                        return Err(Error::new(s));
                    },
                }
            },
            None => None,
        };
        match first_port_with_id(&self.ports, port_id) {
            Some(i) => {
                let ghost before = views(self.ports@);
                let mut port = self.ports[i].clone();
                port.policy = policy;
                let result = port.clone();
                assert(port@ =~= (PortView { policy, ..before[i as int] }));
                self.ports[i] = port;
                assert(views(self.ports@) =~= before.update(i as int, port@));
                assert(self@ =~= old(self)@.with_policy(i as int, policy));
                Ok(result)
            },
            None => {
                let mut s = String::from_str("unknown port ");
                s.append(debug_str(port_id).as_str());
                Err(Error::new(s))
            },
        }
    }
}

// ---------------------------------------------------------------------------
// Ports
// ---------------------------------------------------------------------------

/// Ports on the given interface of the given host.
pub open spec fn at_tap(host: Seq<char>, tap: Seq<char>) -> spec_fn(PortView) -> bool {
    |p: PortView| p.host == host && p.tap == tap
}

/// Ports other than the one with the given id on the given interface of the given host.
pub open spec fn other_at_tap(id: Seq<char>, host: Seq<char>, tap: Seq<char>) -> spec_fn(
    PortView,
) -> bool {
    |p: PortView| p.id != id && p.host == host && p.tap == tap
}

/// Ports with the given address on the given network.
pub open spec fn at_address(vni: u32, bits: int) -> spec_fn(PortView) -> bool {
    |p: PortView| p.vni == vni && p.ip.bits == bits
}

/// The lowest address from `base + off` on, below `base + span - 1`, that no port of the network
/// has.
pub open spec fn lowest_free(
    ports: Seq<PortView>,
    vni: u32,
    base: int,
    off: int,
    span: int,
) -> Option<
    int,
>
    decreases span - off,
{
    if off >= span - 1 {
        None
    } else if any_port(ports, at_address(vni, base + off)) {
        lowest_free(ports, vni, base, off + 1, span)
    } else {
        Some(base + off)
    }
}

/// What [`lowest_free`] finds: a free host address of the range, every lower one taken; or nothing,
/// where every host address is taken.
pub proof fn lowest_free_properties(
    ports: Seq<PortView>,
    vni: u32,
    base: int,
    off: int,
    span: int,
)
    ensures
        match lowest_free(ports, vni, base, off, span) {
            Some(a) => {
                &&& base + off <= a < base + span - 1
                &&& !any_port(ports, at_address(vni, a))
                &&& forall|b: int|
                    base + off <= b < a ==> any_port(ports, #[trigger] at_address(vni, b))
            },
            None => forall|b: int|
                base + off <= b < base + span - 1 ==> any_port(
                    ports,
                    #[trigger] at_address(vni, b),
                ),
        },
    decreases span - off,
{
    if off < span - 1 && any_port(ports, at_address(vni, base + off)) {
        lowest_free_properties(ports, vni, base, off + 1, span);
    }
}

/// The text for an interface that another port has.
pub open spec fn tap_in_use_text(host: Seq<char>, tap: Seq<char>) -> Seq<char> {
    "tap "@ + debug_text(tap) + " on host "@ + debug_text(host)
        + " is already bound to another port"@
}

impl TopologyView {
    /// The address that a new port on a network gets, or why there is none.
    pub open spec fn address_for(self, vni: u32, requested: Option<Ipv4Addr>) -> Result<
        Ipv4Addr,
        Seq<char>,
    > {
        let subnet = self.networks[vni].subnet;
        match requested {
            Some(ip) => if !subnet.contains(ip) {
                Err(
                    "ip "@ + ipv4_text(ip) + " is outside network "@ + decimal(vni as nat)
                        + "'s subnet"@,
                )
            } else if any_port(self.ports, at_address(vni, ip.bits as int)) {
                Err(
                    "ip "@ + ipv4_text(ip) + " is already allocated on network "@ + decimal(
                        vni as nat,
                    ),
                )
            } else {
                Ok(ip)
            },
            None => if subnet.span() < 3 {
                Err(
                    "network "@ + decimal(vni as nat)
                        + " subnet is too small for a host address"@,
                )
            } else {
                match lowest_free(self.ports, vni, subnet.base(), 1, subnet.span()) {
                    Some(a) => Ok(Ipv4Addr { bits: a as u32 }),
                    None => Err("network "@ + decimal(vni as nat) + " has no free addresses"@),
                }
            },
        }
    }

    /// Creating a port, with the given MAC address or the one derived from its address.
    pub open spec fn create_port(
        self,
        vni: u32,
        host: Seq<char>,
        tap: Seq<char>,
        requested: Option<Ipv4Addr>,
        policy: Option<u32>,
        mac: Option<[u8; 6]>,
    ) -> (TopologyView, Result<PortView, Seq<char>>) {
        if !self.networks.dom().contains(vni) {
            (self, Err("unknown network vni "@ + decimal(vni as nat)))
        } else if !self.hosts.dom().contains(host) {
            (self, Err("unknown host "@ + debug_text(host)))
        } else if any_port(self.ports, at_tap(host, tap)) {
            (self, Err(tap_in_use_text(host, tap)))
        } else {
            match self.address_for(vni, requested) {
                Err(e) => (self, Err(e)),
                Ok(ip) => {
                    let port = PortView {
                        id: port_id_text(vni, ip),
                        vni,
                        policy,
                        host,
                        ip,
                        mac: match mac {
                            Some(m) => m,
                            None => mac_of(ip),
                        },
                        tap,
                    };
                    (TopologyView { ports: self.ports.push(port), ..self }, Ok(port))
                },
            }
        }
    }

    /// The fabric without the ports that have the given id.
    pub open spec fn remove_port(self, id: Seq<char>) -> TopologyView {
        TopologyView { ports: flat(self.ports, unless_id(id)), ..self }
    }

    /// Moving a port to another host and interface.
    pub open spec fn migrate_port(self, id: Seq<char>, host: Seq<char>, tap: Seq<char>) -> (
        TopologyView,
        Result<PortView, Seq<char>>,
    ) {
        let i = first_index(self.ports, with_id(id));
        if !self.hosts.dom().contains(host) {
            (self, Err("unknown host "@ + debug_text(host)))
        } else if any_port(self.ports, other_at_tap(id, host, tap)) {
            (self, Err(tap_in_use_text(host, tap)))
        } else if i >= self.ports.len() {
            (self, Err("unknown port "@ + debug_text(id)))
        } else {
            let port = PortView { host, tap, ..self.ports[i] };
            (TopologyView { ports: self.ports.update(i, port), ..self }, Ok(port))
        }
    }
}

/// Keeps a port unless it has the given id.
pub open spec fn unless_id(id: Seq<char>) -> spec_fn(PortView) -> Seq<PortView> {
    |p: PortView|
        if p.id == id {
            Seq::empty()
        } else {
            seq![p]
        }
}

fn any_port_at_tap(ports: &Vec<Port>, host: &str, tap: &str) -> (r: bool)
    ensures
        r == any_port(views(ports@), at_tap(host@, tap@)),
{
    let ghost f = at_tap(host@, tap@);
    for i in 0..ports.len()
        invariant
            f == at_tap(host@, tap@),
            forall|j: int| 0 <= j < i ==> !f(#[trigger] views(ports@)[j]),
    {
        if same(ports[i].host.as_str(), host) && same(ports[i].tap.as_str(), tap) {
            proof {
                first_index_is(views(ports@), f, i as int);
            }
            return true;
        }
    }
    proof {
        first_index_is(views(ports@), f, ports@.len() as int);
    }
    false
}

fn any_other_port_at_tap(ports: &Vec<Port>, id: &str, host: &str, tap: &str) -> (r: bool)
    ensures
        r == any_port(views(ports@), other_at_tap(id@, host@, tap@)),
{
    let ghost f = other_at_tap(id@, host@, tap@);
    for i in 0..ports.len()
        invariant
            f == other_at_tap(id@, host@, tap@),
            forall|j: int| 0 <= j < i ==> !f(#[trigger] views(ports@)[j]),
    {
        if !same(ports[i].id.as_str(), id) && same(ports[i].host.as_str(), host) && same(
            ports[i].tap.as_str(),
            tap,
        ) {
            proof {
                first_index_is(views(ports@), f, i as int);
            }
            return true;
        }
    }
    proof {
        first_index_is(views(ports@), f, ports@.len() as int);
    }
    false
}

fn any_port_at_address(ports: &Vec<Port>, vni: u32, bits: u32) -> (r: bool)
    ensures
        r == any_port(views(ports@), at_address(vni, bits as int)),
{
    let ghost f = at_address(vni, bits as int);
    for i in 0..ports.len()
        invariant
            f == at_address(vni, bits as int),
            forall|j: int| 0 <= j < i ==> !f(#[trigger] views(ports@)[j]),
    {
        if ports[i].vni == vni && ports[i].ip.bits == bits {
            proof {
                first_index_is(views(ports@), f, i as int);
            }
            return true;
        }
    }
    proof {
        first_index_is(views(ports@), f, ports@.len() as int);
    }
    false
}

impl Topology {
    /// Whether an address lies in the subnet of a network; `false` where there is no such network.
    fn subnet_contains(&self, vni: u32, ip: Ipv4Addr) -> (r: bool)
        requires
            self.inv(),
        ensures
            r == (self@.networks.dom().contains(vni) && self@.networks[vni].subnet.contains(ip)),
    {
        match self.find_network(vni) {
            Some(n) => {
                let subnet = self.networks[n].subnet;
                assert(self.networks@[n as int].subnet.valid());
                let base: u32 = Ipv4Addr::from_octets(subnet.octets).bits;
                let size: u64 = power_of_two(32 - subnet.prefix as u32);
                let bits: u64 = ip.bits as u64;
                assert(bits % size <= bits) by (nonlinear_arith)
                    requires
                        size > 0,
                ;
                bits - bits % size == base as u64
            },
            None => false,
        }
    }

    /// Allocates the lowest free host address of a network, without its first and last address.
    fn alloc_ip(&self, vni: u32) -> (r: Result<Ipv4Addr, Error>)
        requires
            self.inv(),
            self@.networks.dom().contains(vni),
        ensures
            match r {
                Ok(ip) => self@.address_for(vni, None) == Ok::<Ipv4Addr, Seq<char>>(ip),
                Err(e) => self@.address_for(vni, None) == Err::<Ipv4Addr, Seq<char>>(e@),
            },
    {
        let n: usize = self.find_network(vni).unwrap();
        let subnet = self.networks[n].subnet;
        assert(self.networks@[n as int].subnet.valid());
        let base: u32 = Ipv4Addr::from_octets(subnet.octets).bits;
        let span: u64 = if subnet.prefix == 0 {
            0xFFFF_FFFF
        } else {
            power_of_two(32 - subnet.prefix as u32)
        };
        if span < 3 {
            let mut s = String::from_str("network ");
            push_decimal(&mut s, vni as u64);
            s.append(" subnet is too small for a host address");
            return Err(Error::new(s));
        }
        let ghost ports = self@.ports;
        let mut off: u64 = 1;
        while off < span - 1
            invariant
                ports == views(self.ports@),
                3 <= span,
                1 <= off <= span - 1,
                base + span <= 0x1_0000_0001,
                lowest_free(ports, vni, base as int, off as int, span as int) == lowest_free(
                    ports,
                    vni,
                    base as int,
                    1,
                    span as int,
                ),
                self@.networks.dom().contains(vni),
                self@.networks[vni].subnet.span() == span,
                self@.networks[vni].subnet.base() == base,
                self@.ports == ports,
            decreases span - off,
        {
            let cand: u32 = (base as u64 + off) as u32;
            if !any_port_at_address(&self.ports, vni, cand) {
                return Ok(Ipv4Addr { bits: cand });
            }
            off += 1;
        }
        let mut s = String::from_str("network ");
        push_decimal(&mut s, vni as u64);
        s.append(" has no free addresses");
        Err(Error::new(s))
    }

    /// Creates a port on a network and a host. It gets the requested address, or the lowest free
    /// one of the subnet, and a MAC address derived from it.
    pub fn create_port(
        &mut self,
        vni: u32,
        host: &str,
        tap: &str,
        requested_ip: Option<Ipv4Addr>,
        policy: Option<u32>,
    ) -> (r: Result<Port, Error>)
        requires
            old(self).inv(),
        ensures
            final(self).inv(),
            (final(self)@, result_view(r)) == old(self)@.create_port(
                vni,
                host@,
                tap@,
                requested_ip,
                policy,
                None,
            ),
    {
        self.create_port_with_mac(vni, host, tap, requested_ip, policy, None)
    }

    /// Creates a port as [`Topology::create_port`] does, with a given MAC address where there is
    /// one.
    pub fn create_port_with_mac(
        &mut self,
        vni: u32,
        host: &str,
        tap: &str,
        requested_ip: Option<Ipv4Addr>,
        policy: Option<u32>,
        mac: Option<[u8; 6]>,
    ) -> (r: Result<Port, Error>)
        requires
            old(self).inv(),
        ensures
            final(self).inv(),
            (final(self)@, result_view(r)) == old(self)@.create_port(
                vni,
                host@,
                tap@,
                requested_ip,
                policy,
                mac,
            ),
    {
        if self.find_network(vni).is_none() {
            let mut s = String::from_str("unknown network vni ");
            push_decimal(&mut s, vni as u64);
            return Err(Error::new(s));
        }
        if self.find_host(host).is_none() {
            let mut s = String::from_str("unknown host ");
            s.append(debug_str(host).as_str());
            return Err(Error::new(s));
        }
        if any_port_at_tap(&self.ports, host, tap) {
            return Err(tap_in_use(host, tap));
        }
        let ip = match requested_ip {
            Some(ip) => {
                if !self.subnet_contains(vni, ip) {
                    let mut s = String::from_str("ip ");
                    ip.push_to(&mut s);
                    s.append(" is outside network ");
                    push_decimal(&mut s, vni as u64);
                    s.append("'s subnet");
                    return Err(Error::new(s));
                }
                if any_port_at_address(&self.ports, vni, ip.bits) {
                    let mut s = String::from_str("ip ");
                    ip.push_to(&mut s);
                    s.append(" is already allocated on network ");
                    push_decimal(&mut s, vni as u64);
                    return Err(Error::new(s));
                }
                ip
            },
            None => match self.alloc_ip(vni) {
                Ok(ip) => ip,
                Err(e) => {
                    return Err(e);
                },
            },
        };
        let port = Port {
            id: port_id(vni, ip),
            vni,
            policy,
            host: host.to_owned(),
            ip,
            mac: match mac {
                Some(m) => m,
                None => mac_for(ip),
            },
            tap: tap.to_owned(),
        };
        let result = port.clone();
        let ghost before = views(self.ports@);
        self.ports.push(port);
        assert(views(self.ports@) =~= before.push(port@));
        assert(self@ =~= old(self)@.create_port(vni, host@, tap@, requested_ip, policy, mac).0);
        Ok(result)
    }

    /// Removes a port by id. Tells whether it was there.
    pub fn remove_port(&mut self, id: &str) -> (r: bool)
        requires
            old(self).inv(),
        ensures
            final(self).inv(),
            final(self)@ == old(self)@.remove_port(id@),
            r == any_port(old(self)@.ports, with_id(id@)),
    {
        let ghost before = views(self.ports@);
        let ghost f = unless_id(id@);
        let mut i: usize = 0;
        let mut removed = false;
        let ghost mut done: int = 0;
        assert(before.skip(0) =~= before);
        assert(before.take(0) =~= Seq::empty());
        while i < self.ports.len()
            invariant
                f == unless_id(id@),
                0 <= i <= self.ports@.len(),
                0 <= done <= before.len(),
                before.len() - done == self.ports@.len() - i,
                views(self.ports@).take(i as int) == flat(before.take(done), f),
                views(self.ports@).skip(i as int) == before.skip(done),
                removed == exists|j: int| 0 <= j < done && (#[trigger] before[j]).id == id@,
                self.hosts == old(self).hosts,
                self.networks == old(self).networks,
                self.security_groups == old(self).security_groups,
            decreases self.ports@.len() - i,
        {
            let ghost now = views(self.ports@);
            assert(now[i as int] == before[done]) by {
                assert(now.skip(i as int)[0] == before.skip(done)[0]);
            }
            proof {
                flat_step(before, f, done);
            }
            if same(self.ports[i].id.as_str(), id) {
                let gone = self.ports.remove(i);
                assert(views(self.ports@) =~= now.remove(i as int));
                assert(views(self.ports@).take(i as int) =~= now.take(i as int));
                assert(views(self.ports@).skip(i as int) =~= before.skip(done + 1)) by {
                    let a = views(self.ports@).skip(i as int);
                    let b = before.skip(done + 1);
                    assert forall|k: int| 0 <= k < a.len() implies a[k] == b[k] by {
                        assert(now.skip(i as int)[k + 1] == before.skip(done)[k + 1]);
                    }
                }
                assert(flat(before.take(done + 1), f) =~= flat(before.take(done), f));
                removed = true;
            } else {
                assert(now.take(i + 1) =~= flat(before.take(done), f).push(before[done])) by {
                    assert(now.take(i + 1) =~= now.take(i as int).push(now[i as int]));
                }
                assert(flat(before.take(done + 1), f) =~= flat(before.take(done), f).push(
                    before[done],
                ));
                assert(now.skip(i + 1) =~= before.skip(done + 1)) by {
                    let a = now.skip(i + 1);
                    let b = before.skip(done + 1);
                    assert forall|k: int| 0 <= k < a.len() implies a[k] == b[k] by {
                        assert(now.skip(i as int)[k + 1] == before.skip(done)[k + 1]);
                    }
                }
                i += 1;
            }
            proof {
                done = done + 1;
            }
        }
        assert(before.take(done) =~= before);
        assert(views(self.ports@).take(i as int) =~= views(self.ports@));
        assert(self@ =~= old(self)@.remove_port(id@));
        proof {
            first_index_properties(before, with_id(id@));
            let k = first_index(before, with_id(id@));
            if removed {
                let j = choose|j: int| 0 <= j < done && (#[trigger] before[j]).id == id@;
                assert(with_id(id@)(before[j]));
            } else if k < before.len() {
                assert(before[k].id == id@);
            }
        }
        removed
    }

    /// Moves a port to another host and interface. It keeps its id, network, address and MAC.
    pub fn migrate_port(&mut self, id: &str, new_host: &str, new_tap: &str) -> (r: Result<
        Port,
        Error,
    >)
        requires
            old(self).inv(),
        ensures
            final(self).inv(),
            (final(self)@, result_view(r)) == old(self)@.migrate_port(id@, new_host@, new_tap@),
    {
        if self.find_host(new_host).is_none() {
            let mut s = String::from_str("unknown host ");
            s.append(debug_str(new_host).as_str());
            return Err(Error::new(s));
        }
        if any_other_port_at_tap(&self.ports, id, new_host, new_tap) {
            return Err(tap_in_use(new_host, new_tap));
        }
        match first_port_with_id(&self.ports, id) {
            Some(i) => {
                let ghost before = views(self.ports@);
                let mut port = self.ports[i].clone();
                port.host = new_host.to_owned();
                port.tap = new_tap.to_owned();
                let result = port.clone();
                assert(port@ =~= (PortView { host: new_host@, tap: new_tap@, ..before[i as int] }));
                self.ports[i] = port;
                assert(views(self.ports@) =~= before.update(i as int, port@));
                assert(self@ =~= old(self)@.migrate_port(id@, new_host@, new_tap@).0);
                Ok(result)
            },
            None => {
                let mut s = String::from_str("unknown port ");
                s.append(debug_str(id).as_str());
                Err(Error::new(s))
            },
        }
    }
}

fn tap_in_use(host: &str, tap: &str) -> (r: Error)
    ensures
        r@ == tap_in_use_text(host@, tap@),
{
    let mut s = String::from_str("tap ");
    s.append(debug_str(tap).as_str());
    s.append(" on host ");
    s.append(debug_str(host).as_str());
    s.append(" is already bound to another port");
    Error::new(s)
}

// ---------------------------------------------------------------------------
// Derivation
// ---------------------------------------------------------------------------

/// The network of a port on the given host.
pub open spec fn vni_if_local(id: Seq<char>) -> spec_fn(PortView) -> Seq<u32> {
    |p: PortView|
        if p.host == id {
            seq![p.vni]
        } else {
            Seq::empty()
        }
}

/// The policy set on a port of the given host, where it is not among `vnis`.
pub open spec fn policy_if_local(id: Seq<char>, vnis: Seq<u32>) -> spec_fn(PortView) -> Seq<u32> {
    |p: PortView|
        match p.policy {
            Some(pid) => if p.host == id && !vnis.contains(pid) {
                seq![pid]
            } else {
                Seq::empty()
            },
            None => Seq::empty(),
        }
}

/// The policy of a network: its default action and ICMP setting.
pub open spec fn network_policy(n: NetworkView) -> PolicyFileView {
    PolicyFileView {
        id: n.vni,
        name: Some(n.name),
        default_action: n.default_action,
        drop_icmp: n.drop_icmp,
        log: false,
        stateful: false,
        blocklist: Seq::empty(),
        port_rules: Seq::empty(),
    }
}

/// The policy of a security group: its rule set, under its policy id.
pub open spec fn group_policy(g: SecurityGroupView) -> PolicyFileView {
    PolicyFileView {
        id: policy_id_of(g.name),
        name: Some(g.name),
        default_action: g.default_action,
        drop_icmp: g.drop_icmp,
        log: false,
        stateful: g.stateful,
        blocklist: g.blocklist,
        port_rules: g.rules,
    }
}

/// The binding of a port's interface, where the port is on the given host.
pub open spec fn interface_if_local(id: Seq<char>) -> spec_fn(PortView) -> Seq<InterfaceFileView> {
    |p: PortView|
        if p.host == id {
            seq![
                InterfaceFileView {
                    name: p.tap,
                    policy: p.effective_policy(),
                    vni: Some(p.vni),
                    masquerade: false,
                },
            ]
        } else {
            Seq::empty()
        }
}

impl TopologyView {
    /// The networks that a host has a port on, in increasing order.
    pub open spec fn local_vnis(self, id: Seq<char>) -> Seq<u32> {
        sorted_set(flat(self.ports, vni_if_local(id)))
    }

    /// The policies set on a host's ports that are not those of its networks, in increasing order.
    pub open spec fn local_policies(self, id: Seq<char>) -> Seq<u32> {
        sorted_set(flat(self.ports, policy_if_local(id, self.local_vnis(id))))
    }

    /// The policy of the network with the given VNI.
    pub open spec fn policy_of_network(self) -> spec_fn(u32) -> Seq<PolicyFileView> {
        |v: u32| seq![network_policy(self.networks[v])]
    }

    /// The policy of the group with the given policy id, where there is one.
    pub open spec fn policy_of_group(self) -> spec_fn(u32) -> Seq<PolicyFileView> {
        |pid: u32|
            if self.has_group_of(pid) {
                seq![
                    group_policy(
                        self.security_groups[choose|name: Seq<char>| self.is_group_of(pid, name)],
                    ),
                ]
            } else {
                Seq::empty()
            }
    }

    /// A port of another host, on a network that the host has a port on.
    pub open spec fn is_peer(self, id: Seq<char>, p: PortView) -> bool {
        p.host != id && self.local_vnis(id).contains(p.vni)
    }

    /// The tunnel toward a peer's address: to its host's endpoint, over this host's underlay.
    pub open spec fn tunnel_if_peer(
        self,
        id: Seq<char>,
    ) -> spec_fn(PortView) -> Seq<TunnelCfgView> {
        |p: PortView|
            if self.is_peer(id, p) {
                seq![
                    TunnelCfgView {
                        vni: p.vni,
                        inner_dst: ipv4_text(p.ip) + "/32"@,
                        remote_vtep: ipv4_text(self.hosts[p.host].vtep_ip),
                        via_mac: mac_text(self.hosts[p.host].underlay_mac),
                        out_iface: self.hosts[id].underlay_iface,
                    },
                ]
            } else {
                Seq::empty()
            }
    }

    /// The ARP entry for a peer.
    pub open spec fn neighbor_if_peer(self, id: Seq<char>) -> spec_fn(PortView) -> Seq<
        NeighborCfgView,
    > {
        |p: PortView|
            if self.is_peer(id, p) {
                seq![NeighborCfgView { vni: p.vni, ip: ipv4_text(p.ip), mac: mac_text(p.mac) }]
            } else {
                Seq::empty()
            }
    }

    /// The configuration of a host: its endpoint, a policy for each of its networks and each group
    /// that its ports are bound to, an interface for each of its ports, and a tunnel and an ARP
    /// entry for each peer.
    pub open spec fn derived(self, id: Seq<char>) -> FileConfigView {
        let host = self.hosts[id];
        FileConfigView {
            overlay: Some(
                OverlayCfgView {
                    local_vtep: ipv4_text(host.vtep_ip),
                    underlay_iface: host.underlay_iface,
                    encap: host.encap,
                    udp_port: host.udp_port,
                    local_mac: None,
                    underlay_mtu: host.underlay_mtu,
                },
            ),
            policies: flat(self.local_vnis(id), self.policy_of_network()) + flat(
                self.local_policies(id),
                self.policy_of_group(),
            ),
            interfaces: flat(self.ports, interface_if_local(id)),
            tunnels: flat(self.ports, self.tunnel_if_peer(id)),
            neighbors: flat(self.ports, self.neighbor_if_peer(id)),
            ..empty_config()
        }
    }

    /// No two groups share a policy id.
    pub open spec fn groups_distinct(self) -> bool {
        forall|a: Seq<char>, b: Seq<char>|
            #![trigger self.security_groups.dom().contains(a), self.security_groups.dom().contains(b)]
            self.security_groups.dom().contains(a) && self.security_groups.dom().contains(b)
                && policy_id_of(a) == policy_id_of(b) ==> a == b
    }

    /// What the host's derivation looks up exists: the networks of its ports and the hosts of its
    /// peers. And a policy id names one group.
    pub open spec fn derivable(self, id: Seq<char>) -> bool {
        &&& forall|i: int|
            0 <= i < self.ports.len() && (#[trigger] self.ports[i]).host == id
                ==> self.networks.dom().contains(self.ports[i].vni)
        &&& forall|i: int|
            0 <= i < self.ports.len() && self.is_peer(id, #[trigger] self.ports[i])
                ==> self.hosts.dom().contains(self.ports[i].host)
        &&& self.groups_distinct()
    }
}

/// In a well-formed fabric every host's configuration can be derived.
pub proof fn wf_derivable(t: TopologyView, id: Seq<char>)
    requires
        t.wf(),
    ensures
        t.derivable(id),
{
}

fn contains_u32(v: &Vec<u32>, x: u32) -> (r: bool)
    ensures
        r == v@.contains(x),
{
    for i in 0..v.len()
        invariant
            forall|j: int| 0 <= j < i ==> v@[j] != x,
    {
        if v[i] == x {
            assert(v@[i as int] == x);
            return true;
        }
    }
    false
}

fn network_policy_file(net: &Network) -> (r: PolicyFile)
    ensures
        r@ == network_policy(net@),
{
    let r = PolicyFile {
        id: net.vni,
        name: Some(net.name.clone()),
        default_action: net.default_action,
        drop_icmp: net.drop_icmp,
        log: false,
        stateful: false,
        blocklist: Vec::new(),
        port_rules: Vec::new(),
    };
    assert(r@ =~= network_policy(net@));
    r
}

fn group_policy_file(sg: &SecurityGroup) -> (r: PolicyFile)
    ensures
        r@ == group_policy(sg@),
{
    PolicyFile {
        id: sg.policy_id(),
        name: Some(sg.name.clone()),
        default_action: sg.default_action,
        drop_icmp: sg.drop_icmp,
        log: false,
        stateful: sg.stateful,
        blocklist: clone_strings(&sg.blocklist),
        port_rules: clone_rules(&sg.rules),
    }
}

impl Topology {
    fn local_vnis(&self, id: &str) -> (r: Vec<u32>)
        ensures
            r@ == self@.local_vnis(id@),
            increasing(r@),
    {
        let mut vnis: Vec<u32> = Vec::new();
        let ghost ports = views(self.ports@);
        let ghost f = vni_if_local(id@);
        for i in 0..self.ports.len()
            invariant
                ports == views(self.ports@),
                f == vni_if_local(id@),
                increasing(vnis@),
                vnis@ == sorted_set(flat(ports.take(i as int), f)),
        {
            proof {
                flat_step(ports, f, i as int);
            }
            let ghost before = flat(ports.take(i as int), f);
            let ghost after = flat(ports.take(i + 1), f);
            if same(self.ports[i].host.as_str(), id) {
                let vni: u32 = self.ports[i].vni;
                assert(after =~= before.push(vni));
                assert(after.drop_last() =~= before);
                insert_into_sorted(&mut vnis, vni);
            } else {
                assert(after =~= before);
            }
        }
        assert(ports.take(self.ports@.len() as int) =~= ports);
        vnis
    }

    /// The networks that a host has a port on, in increasing order.
    pub fn host_vnis(&self, id: &str) -> (r: Vec<u32>)
        ensures
            r@ == self@.local_vnis(id@),
    {
        self.local_vnis(id)
    }

    fn local_policies(&self, id: &str, vnis: &Vec<u32>) -> (r: Vec<u32>)
        requires
            vnis@ == self@.local_vnis(id@),
        ensures
            r@ == self@.local_policies(id@),
            increasing(r@),
    {
        let mut pids: Vec<u32> = Vec::new();
        let ghost ports = views(self.ports@);
        let ghost f = policy_if_local(id@, vnis@);
        for i in 0..self.ports.len()
            invariant
                ports == views(self.ports@),
                f == policy_if_local(id@, vnis@),
                increasing(pids@),
                pids@ == sorted_set(flat(ports.take(i as int), f)),
        {
            proof {
                flat_step(ports, f, i as int);
            }
            let ghost before = flat(ports.take(i as int), f);
            let ghost after = flat(ports.take(i + 1), f);
            match self.ports[i].policy {
                Some(pid) => {
                    if same(self.ports[i].host.as_str(), id) && !contains_u32(vnis, pid) {
                        assert(after =~= before.push(pid));
                        assert(after.drop_last() =~= before);
                        insert_into_sorted(&mut pids, pid);
                    } else {
                        assert(after =~= before);
                    }
                },
                None => {
                    assert(after =~= before);
                },
            }
        }
        assert(ports.take(self.ports@.len() as int) =~= ports);
        pids
    }

    /// The policies of a host's networks and of the groups that its ports are bound to.
    fn derive_policies(&self, id: &str, vnis: &Vec<u32>) -> (r: Vec<PolicyFile>)
        requires
            self.inv(),
            self@.derivable(id@),
            vnis@ == self@.local_vnis(id@),
        ensures
            views(r@) == self@.derived(id@).policies,
    {
        let mut policies: Vec<PolicyFile> = Vec::new();
        let ghost f = self@.policy_of_network();
        for i in 0..vnis.len()
            invariant
                self.inv(),
                self@.derivable(id@),
                vnis@ == self@.local_vnis(id@),
                f == self@.policy_of_network(),
                views(policies@) == flat(vnis@.take(i as int), f),
        {
            let vni: u32 = vnis[i];
            proof {
                flat_step(vnis@, f, i as int);
                self.local_vni_exists(id@, vni);
            }
            let ghost before = views(policies@);
            let n: usize = self.find_network(vni).unwrap();
            let net = &self.networks[n];
            let policy = network_policy_file(net);
            policies.push(policy);
            assert(views(policies@) =~= before.push(policy@));
        }
        assert(vnis@.take(vnis@.len() as int) =~= vnis@);
        let pids = self.local_policies(id, vnis);
        let ghost base = flat(vnis@, f);
        let ghost g = self@.policy_of_group();
        assert(pids@.take(0) =~= Seq::empty());
        assert(views(policies@) =~= base + flat(pids@.take(0), g));
        for i in 0..pids.len()
            invariant
                self.inv(),
                self@.derivable(id@),
                g == self@.policy_of_group(),
                views(policies@) == base + flat(pids@.take(i as int), g),
        {
            let pid: u32 = pids[i];
            proof {
                flat_step(pids@, g, i as int);
            }
            let ghost before = views(policies@);
            match self.find_group_by_policy(pid) {
                Some(k) => {
                    let sg = &self.security_groups[k];
                    proof {
                        assert(self@.is_group_of(pid, sg.name@));
                        let picked = choose|name: Seq<char>| self@.is_group_of(pid, name);
                        assert(picked == sg.name@);
                    }
                    let policy = group_policy_file(sg);
                    policies.push(policy);
                    assert(views(policies@) =~= before.push(policy@));
                    assert(views(policies@) =~= base + flat(pids@.take(i + 1), g));
                },
                None => {
                    assert(!self@.has_group_of(pid));
                    assert(views(policies@) =~= base + flat(pids@.take(i + 1), g));
                },
            }
        }
        assert(pids@.take(pids@.len() as int) =~= pids@);
        policies
    }

    proof fn local_vni_exists(&self, id: Seq<char>, vni: u32)
        requires
            self@.derivable(id),
            self@.local_vnis(id).contains(vni),
        ensures
            self@.networks.dom().contains(vni),
    {
        local_vni_has_port(self@, id, vni);
    }

    /// Derives a host's configuration; `None` where the host is unknown.
    pub fn derive(&self, host_id: &str) -> (r: Option<FileConfig>)
        requires
            self.inv(),
            self@.derivable(host_id@),
        ensures
            match r {
                Some(cfg) => self@.hosts.dom().contains(host_id@) && cfg@ == self@.derived(
                    host_id@,
                ),
                None => !self@.hosts.dom().contains(host_id@),
            },
    {
        let host = match self.find_host(host_id) {
            Some(h) => &self.hosts[h],
            None => {
                return None;
            },
        };
        let vnis = self.local_vnis(host_id);
        let mut cfg = FileConfig::default();
        cfg.overlay = Some(
            OverlayCfg {
                local_vtep: host.vtep_ip.to_string(),
                underlay_iface: host.underlay_iface.clone(),
                encap: host.encap,
                udp_port: host.udp_port,
                local_mac: None,
                underlay_mtu: host.underlay_mtu,
            },
        );
        cfg.policies = self.derive_policies(host_id, &vnis);
        let ghost ports = views(self.ports@);
        let ghost fi = interface_if_local(host_id@);
        let ghost ft = self@.tunnel_if_peer(host_id@);
        let ghost fnb = self@.neighbor_if_peer(host_id@);
        let mut interfaces: Vec<InterfaceFile> = Vec::new();
        let mut tunnels: Vec<TunnelCfg> = Vec::new();
        let mut neighbors: Vec<NeighborCfg> = Vec::new();
        for i in 0..self.ports.len()
            invariant
                self.inv(),
                self@.derivable(host_id@),
                self@.hosts.dom().contains(host_id@),
                self@.hosts[host_id@] == host@,
                ports == self@.ports,
                vnis@ == self@.local_vnis(host_id@),
                fi == interface_if_local(host_id@),
                ft == self@.tunnel_if_peer(host_id@),
                fnb == self@.neighbor_if_peer(host_id@),
                views(interfaces@) == flat(ports.take(i as int), fi),
                views(tunnels@) == flat(ports.take(i as int), ft),
                views(neighbors@) == flat(ports.take(i as int), fnb),
        {
            let port = &self.ports[i];
            proof {
                flat_step(ports, fi, i as int);
                flat_step(ports, ft, i as int);
                flat_step(ports, fnb, i as int);
                assert(ports[i as int] == port@);
            }
            let ghost bi = views(interfaces@);
            let ghost bt = views(tunnels@);
            let ghost bn = views(neighbors@);
            if same(port.host.as_str(), host_id) {
                let entry = InterfaceFile {
                    name: port.tap.clone(),
                    policy: port.effective_policy(),
                    vni: Some(port.vni),
                    masquerade: false,
                };
                interfaces.push(entry);
                assert(views(interfaces@) =~= bi.push(entry@));
                assert(views(interfaces@) =~= flat(ports.take(i + 1), fi));
                assert(views(tunnels@) =~= flat(ports.take(i + 1), ft));
                assert(views(neighbors@) =~= flat(ports.take(i + 1), fnb));
            } else if contains_u32(&vnis, port.vni) {
                assert(self@.is_peer(host_id@, ports[i as int]));
                let h: usize = self.find_host(port.host.as_str()).unwrap();
                let remote = &self.hosts[h];
                let mut inner_dst = port.ip.to_string();
                inner_dst.append("/32");
                let tunnel = TunnelCfg {
                    vni: port.vni,
                    inner_dst,
                    remote_vtep: remote.vtep_ip.to_string(),
                    via_mac: fmt_mac(remote.underlay_mac),
                    out_iface: host.underlay_iface.clone(),
                };
                let neighbor = NeighborCfg {
                    vni: port.vni,
                    ip: port.ip.to_string(),
                    mac: fmt_mac(port.mac),
                };
                tunnels.push(tunnel);
                neighbors.push(neighbor);
                assert(views(tunnels@) =~= bt.push(tunnel@));
                assert(views(neighbors@) =~= bn.push(neighbor@));
                assert(views(interfaces@) =~= flat(ports.take(i + 1), fi));
                assert(views(tunnels@) =~= flat(ports.take(i + 1), ft));
                assert(views(neighbors@) =~= flat(ports.take(i + 1), fnb));
            } else {
                assert(views(interfaces@) =~= flat(ports.take(i + 1), fi));
                assert(views(tunnels@) =~= flat(ports.take(i + 1), ft));
                assert(views(neighbors@) =~= flat(ports.take(i + 1), fnb));
            }
        }
        assert(ports.take(self.ports@.len() as int) =~= ports);
        cfg.interfaces = interfaces;
        cfg.tunnels = tunnels;
        cfg.neighbors = neighbors;
        assert(cfg@ =~= self@.derived(host_id@));
        Some(cfg)
    }
}

/// A network among a host's networks is that of one of its ports, and the other way round.
pub proof fn local_vni_has_port(t: TopologyView, id: Seq<char>, vni: u32)
    ensures
        t.local_vnis(id).contains(vni) <==> exists|i: int|
            0 <= i < t.ports.len() && (#[trigger] t.ports[i]).host == id && t.ports[i].vni == vni,
{
    let f = vni_if_local(id);
    sorted_set_properties(flat(t.ports, f));
    flat_contains(t.ports, f, vni);
    assert(t.local_vnis(id).contains(vni) <==> flat(t.ports, f).contains(vni));
    if t.local_vnis(id).contains(vni) {
        let i = choose|i: int| 0 <= i < t.ports.len() && f(#[trigger] t.ports[i]).contains(vni);
        assert(t.ports[i].host == id && t.ports[i].vni == vni);
    }
    if exists|i: int|
        0 <= i < t.ports.len() && (#[trigger] t.ports[i]).host == id && t.ports[i].vni == vni {
        let i = choose|i: int|
            0 <= i < t.ports.len() && (#[trigger] t.ports[i]).host == id && t.ports[i].vni == vni;
        assert(f(t.ports[i])[0] == vni);
        assert(f(t.ports[i]).contains(vni));
    }
}

/// The durable form of a [`Host`].
#[derive(Debug, PartialEq, Eq)]
pub struct HostRec {
    pub id: String,
    pub vtep_ip: [u8; 4],
    pub underlay_iface: String,
    pub underlay_mac: [u8; 6],
    pub encap: EncapName,
    pub udp_port: Option<u16>,
    pub underlay_mtu: Option<u16>,
}

/// What a [`HostRec`] holds.
#[verifier::ext_equal]
pub struct HostRecView {
    pub id: Seq<char>,
    pub vtep_ip: [u8; 4],
    pub underlay_iface: Seq<char>,
    pub underlay_mac: [u8; 6],
    pub encap: EncapName,
    pub udp_port: Option<u16>,
    pub underlay_mtu: Option<u16>,
}

impl View for HostRec {
    type V = HostRecView;

    open spec fn view(&self) -> HostRecView {
        HostRecView {
            id: self.id@,
            vtep_ip: self.vtep_ip,
            underlay_iface: self.underlay_iface@,
            underlay_mac: self.underlay_mac,
            encap: self.encap,
            udp_port: self.udp_port,
            underlay_mtu: self.underlay_mtu,
        }
    }
}

/// The durable form of a [`Network`].
#[derive(Debug, PartialEq, Eq)]
pub struct NetworkRec {
    pub vni: u32,
    pub name: String,
    pub subnet_octets: [u8; 4],
    pub subnet_prefix: u8,
    pub default_action: ActionName,
    pub drop_icmp: bool,
}

/// What a [`NetworkRec`] holds.
#[verifier::ext_equal]
pub struct NetworkRecView {
    pub vni: u32,
    pub name: Seq<char>,
    pub subnet_octets: [u8; 4],
    pub subnet_prefix: u8,
    pub default_action: ActionName,
    pub drop_icmp: bool,
}

impl View for NetworkRec {
    type V = NetworkRecView;

    open spec fn view(&self) -> NetworkRecView {
        NetworkRecView {
            vni: self.vni,
            name: self.name@,
            subnet_octets: self.subnet_octets,
            subnet_prefix: self.subnet_prefix,
            default_action: self.default_action,
            drop_icmp: self.drop_icmp,
        }
    }
}

/// The durable form of a [`SecurityGroup`]; the policy id follows from the name.
#[derive(Debug, PartialEq, Eq)]
pub struct SecurityGroupRec {
    pub name: String,
    pub default_action: ActionName,
    pub drop_icmp: bool,
    pub stateful: bool,
    pub blocklist: Vec<String>,
    pub rules: Vec<PortRule>,
}

/// What a [`SecurityGroupRec`] holds.
#[verifier::ext_equal]
pub struct SecurityGroupRecView {
    pub name: Seq<char>,
    pub default_action: ActionName,
    pub drop_icmp: bool,
    pub stateful: bool,
    pub blocklist: Seq<Seq<char>>,
    pub rules: Seq<PortRuleView>,
}

impl View for SecurityGroupRec {
    type V = SecurityGroupRecView;

    open spec fn view(&self) -> SecurityGroupRecView {
        SecurityGroupRecView {
            name: self.name@,
            default_action: self.default_action,
            drop_icmp: self.drop_icmp,
            stateful: self.stateful,
            blocklist: views(self.blocklist@),
            rules: views(self.rules@),
        }
    }
}

/// The durable form of a [`Port`].
#[derive(Debug, PartialEq, Eq)]
pub struct PortRec {
    pub id: String,
    pub vni: u32,
    pub policy: Option<u32>,
    pub host: String,
    pub ip: [u8; 4],
    pub mac: [u8; 6],
    pub tap: String,
}

/// What a [`PortRec`] holds.
#[verifier::ext_equal]
pub struct PortRecView {
    pub id: Seq<char>,
    pub vni: u32,
    pub policy: Option<u32>,
    pub host: Seq<char>,
    pub ip: [u8; 4],
    pub mac: [u8; 6],
    pub tap: Seq<char>,
}

impl View for PortRec {
    type V = PortRecView;

    open spec fn view(&self) -> PortRecView {
        PortRecView {
            id: self.id@,
            vni: self.vni,
            policy: self.policy,
            host: self.host@,
            ip: self.ip,
            mac: self.mac,
            tap: self.tap@,
        }
    }
}

/// A point-in-time copy of the whole fabric.
#[derive(Debug, PartialEq, Eq)]
pub struct FabricSnapshot {
    pub hosts: Vec<HostRec>,
    pub networks: Vec<NetworkRec>,
    pub ports: Vec<PortRec>,
    pub security_groups: Vec<SecurityGroupRec>,
}

/// What a [`FabricSnapshot`] holds.
#[verifier::ext_equal]
pub struct FabricSnapshotView {
    pub hosts: Seq<HostRecView>,
    pub networks: Seq<NetworkRecView>,
    pub ports: Seq<PortRecView>,
    pub security_groups: Seq<SecurityGroupRecView>,
}

impl View for FabricSnapshot {
    type V = FabricSnapshotView;

    open spec fn view(&self) -> FabricSnapshotView {
        FabricSnapshotView {
            hosts: views(self.hosts@),
            networks: views(self.networks@),
            ports: views(self.ports@),
            security_groups: views(self.security_groups@),
        }
    }
}

// ---------------------------------------------------------------------------
// Snapshots
// ---------------------------------------------------------------------------

impl HostRecView {
    /// The host that the record describes.
    pub open spec fn host(self) -> HostView {
        HostView {
            id: self.id,
            vtep_ip: Ipv4Addr { bits: octets_value(self.vtep_ip) as u32 },
            underlay_iface: self.underlay_iface,
            underlay_mac: self.underlay_mac,
            encap: self.encap,
            udp_port: self.udp_port,
            underlay_mtu: self.underlay_mtu,
        }
    }
}

impl NetworkRecView {
    /// The network that the record describes.
    pub open spec fn network(self) -> NetworkView {
        NetworkView {
            vni: self.vni,
            name: self.name,
            subnet: Cidr4 { octets: self.subnet_octets, prefix: self.subnet_prefix },
            default_action: self.default_action,
            drop_icmp: self.drop_icmp,
        }
    }
}

impl PortRecView {
    /// The port that the record describes.
    pub open spec fn port(self) -> PortView {
        PortView {
            id: self.id,
            vni: self.vni,
            policy: self.policy,
            host: self.host,
            ip: Ipv4Addr { bits: octets_value(self.ip) as u32 },
            mac: self.mac,
            tap: self.tap,
        }
    }
}

impl SecurityGroupRecView {
    /// The group that the record describes.
    pub open spec fn group(self) -> SecurityGroupView {
        SecurityGroupView {
            name: self.name,
            default_action: self.default_action,
            drop_icmp: self.drop_icmp,
            stateful: self.stateful,
            blocklist: self.blocklist,
            rules: self.rules,
        }
    }
}

impl FabricSnapshotView {
    /// The fabric that the snapshot describes. Of two records with one key the later counts.
    pub open spec fn model(self) -> TopologyView {
        TopologyView {
            hosts: keyed(
                Seq::new(self.hosts.len(), |i: int| self.hosts[i].id),
                Seq::new(self.hosts.len(), |i: int| self.hosts[i].host()),
            ),
            networks: keyed(
                Seq::new(self.networks.len(), |i: int| self.networks[i].vni),
                Seq::new(self.networks.len(), |i: int| self.networks[i].network()),
            ),
            ports: Seq::new(self.ports.len(), |i: int| self.ports[i].port()),
            security_groups: keyed(
                Seq::new(self.security_groups.len(), |i: int| self.security_groups[i].name),
                Seq::new(self.security_groups.len(), |i: int| self.security_groups[i].group()),
            ),
        }
    }

    /// Every subnet of the snapshot is usable.
    pub open spec fn usable(self) -> bool {
        forall|i: int|
            0 <= i < self.networks.len() ==> (#[trigger] self.networks[i]).network().subnet.valid()
    }
}

fn host_rec(h: &Host) -> (r: HostRec)
    ensures
        r@.host() == h@,
        r@.id == h@.id,
{
    HostRec {
        id: h.id.clone(),
        vtep_ip: h.vtep_ip.octets(),
        underlay_iface: h.underlay_iface.clone(),
        underlay_mac: h.underlay_mac,
        encap: h.encap,
        udp_port: h.udp_port,
        underlay_mtu: h.underlay_mtu,
    }
}

fn host_of_rec(r: &HostRec) -> (h: Host)
    ensures
        h@ == r@.host(),
{
    Host {
        id: r.id.clone(),
        vtep_ip: Ipv4Addr::from_octets(r.vtep_ip),
        underlay_iface: r.underlay_iface.clone(),
        underlay_mac: r.underlay_mac,
        encap: r.encap,
        udp_port: r.udp_port,
        underlay_mtu: r.underlay_mtu,
    }
}

fn network_rec(n: &Network) -> (r: NetworkRec)
    ensures
        r@.network() == n@,
        r@.vni == n@.vni,
{
    NetworkRec {
        vni: n.vni,
        name: n.name.clone(),
        subnet_octets: n.subnet.octets,
        subnet_prefix: n.subnet.prefix,
        default_action: n.default_action,
        drop_icmp: n.drop_icmp,
    }
}

fn network_of_rec(r: &NetworkRec) -> (n: Network)
    ensures
        n@ == r@.network(),
{
    Network {
        vni: r.vni,
        name: r.name.clone(),
        subnet: Cidr4 { octets: r.subnet_octets, prefix: r.subnet_prefix },
        default_action: r.default_action,
        drop_icmp: r.drop_icmp,
    }
}

fn port_rec(p: &Port) -> (r: PortRec)
    ensures
        r@.port() == p@,
{
    PortRec {
        id: p.id.clone(),
        vni: p.vni,
        policy: p.policy,
        host: p.host.clone(),
        ip: p.ip.octets(),
        mac: p.mac,
        tap: p.tap.clone(),
    }
}

fn port_of_rec(r: &PortRec) -> (p: Port)
    ensures
        p@ == r@.port(),
{
    Port {
        id: r.id.clone(),
        vni: r.vni,
        policy: r.policy,
        host: r.host.clone(),
        ip: Ipv4Addr::from_octets(r.ip),
        mac: r.mac,
        tap: r.tap.clone(),
    }
}

fn group_rec(g: &SecurityGroup) -> (r: SecurityGroupRec)
    ensures
        r@.group() == g@,
        r@.name == g@.name,
{
    SecurityGroupRec {
        name: g.name.clone(),
        default_action: g.default_action,
        drop_icmp: g.drop_icmp,
        stateful: g.stateful,
        blocklist: clone_strings(&g.blocklist),
        rules: clone_rules(&g.rules),
    }
}

fn group_of_rec(r: &SecurityGroupRec) -> (g: SecurityGroup)
    ensures
        g@ == r@.group(),
{
    SecurityGroup {
        name: r.name.clone(),
        default_action: r.default_action,
        drop_icmp: r.drop_icmp,
        stateful: r.stateful,
        blocklist: clone_strings(&r.blocklist),
        rules: clone_rules(&r.rules),
    }
}

impl FabricSnapshot {
    /// Whether every subnet of the snapshot is usable.
    pub fn usable(&self) -> (r: bool)
        ensures
            r == self@.usable(),
    {
        for i in 0..self.networks.len()
            invariant
                forall|j: int|
                    0 <= j < i ==> (#[trigger] self@.networks[j]).network().subnet.valid(),
        {
            let n = &self.networks[i];
            assert(self@.networks[i as int] == n@);
            if !(Cidr4 { octets: n.subnet_octets, prefix: n.subnet_prefix }.usable()) {
                return false;
            }
        }
        true
    }
}

impl Cidr4 {
    /// Whether the prefix length fits and no host address lies beyond the address space.
    pub fn usable(&self) -> (r: bool)
        ensures
            r == self.valid(),
    {
        if self.prefix > 32 {
            return false;
        }
        let base: u64 = Ipv4Addr::from_octets(self.octets).bits as u64;
        let span: u64 = if self.prefix == 0 {
            0xFFFF_FFFF
        } else {
            power_of_two(32 - self.prefix as u32)
        };
        base + span <= 0x1_0000_0001
    }
}

impl Topology {
    fn put_network(&mut self, network: Network)
        requires
            old(self).inv(),
            network.subnet.valid(),
        ensures
            final(self).inv(),
            final(self)@ == (TopologyView {
                networks: old(self)@.networks.insert(network.vni, network@),
                ..old(self)@
            }),
    {
        let ghost ks = network_keys(self.networks@);
        let ghost vs = views(self.networks@);
        let ghost net = network;
        match self.find_network(network.vni) {
            Some(i) => {
                proof {
                    keyed_update(ks, vs, i as int, network@);
                }
                self.networks[i] = network;
                assert(network_keys(self.networks@) =~= ks);
                assert(views(self.networks@) =~= vs.update(i as int, net@));
            },
            None => {
                proof {
                    keyed_push(ks, vs, network.vni, network@);
                }
                self.networks.push(network);
                assert(network_keys(self.networks@) =~= ks.push(net.vni));
                assert(views(self.networks@) =~= vs.push(net@));
            },
        }
        assert(self@ =~= (TopologyView {
            networks: old(self)@.networks.insert(net.vni, net@),
            ..old(self)@
        }));
    }

    fn put_group(&mut self, group: SecurityGroup)
        requires
            old(self).inv(),
        ensures
            final(self).inv(),
            final(self)@ == (TopologyView {
                security_groups: old(self)@.security_groups.insert(group.name@, group@),
                ..old(self)@
            }),
    {
        let ghost ks = group_keys(self.security_groups@);
        let ghost vs = views(self.security_groups@);
        let ghost g = group;
        match self.find_group(group.name.as_str()) {
            Some(i) => {
                proof {
                    keyed_update(ks, vs, i as int, group@);
                }
                self.security_groups[i] = group;
                assert(group_keys(self.security_groups@) =~= ks);
                assert(views(self.security_groups@) =~= vs.update(i as int, g@));
            },
            None => {
                proof {
                    keyed_push(ks, vs, group.name@, group@);
                }
                self.security_groups.push(group);
                assert(group_keys(self.security_groups@) =~= ks.push(g.name@));
                assert(views(self.security_groups@) =~= vs.push(g@));
            },
        }
        assert(self@ =~= (TopologyView {
            security_groups: old(self)@.security_groups.insert(g.name@, g@),
            ..old(self)@
        }));
    }

    /// Captures the whole fabric. The snapshot describes exactly this fabric, each entry once.
    pub fn to_snapshot(&self) -> (r: FabricSnapshot)
        requires
            self.inv(),
        ensures
            r@.model() == self@,
            r@.usable(),
            distinct(Seq::new(r@.hosts.len(), |i: int| r@.hosts[i].id)),
            distinct(Seq::new(r@.networks.len(), |i: int| r@.networks[i].vni)),
            distinct(Seq::new(r@.security_groups.len(), |i: int| r@.security_groups[i].name)),
    {
        let mut hosts: Vec<HostRec> = Vec::new();
        for i in 0..self.hosts.len()
            invariant
                hosts@.len() == i,
                forall|j: int|
                    0 <= j < i ==> (#[trigger] hosts@[j])@.host() == self.hosts@[j]@
                        && hosts@[j]@.id
                        == self.hosts@[j].id@,
        {
            hosts.push(host_rec(&self.hosts[i]));
        }
        let mut networks: Vec<NetworkRec> = Vec::new();
        for i in 0..self.networks.len()
            invariant
                networks@.len() == i,
                forall|j: int|
                    0 <= j < i ==> (#[trigger] networks@[j])@.network() == self.networks@[j]@
                        && networks@[j]@.vni == self.networks@[j].vni,
        {
            networks.push(network_rec(&self.networks[i]));
        }
        let mut ports: Vec<PortRec> = Vec::new();
        for i in 0..self.ports.len()
            invariant
                ports@.len() == i,
                forall|j: int|
                    0 <= j < i ==> (#[trigger] ports@[j])@.port() == self.ports@[j]@,
        {
            ports.push(port_rec(&self.ports[i]));
        }
        let mut security_groups: Vec<SecurityGroupRec> = Vec::new();
        for i in 0..self.security_groups.len()
            invariant
                security_groups@.len() == i,
                forall|j: int|
                    0 <= j < i ==> (#[trigger] security_groups@[j])@.group()
                        == self.security_groups@[j]@ && security_groups@[j]@.name
                        == self.security_groups@[j].name@,
        {
            security_groups.push(group_rec(&self.security_groups[i]));
        }
        let r = FabricSnapshot { hosts, networks, ports, security_groups };
        proof {
            let s = r@;
            assert(Seq::new(s.hosts.len(), |i: int| s.hosts[i].id) =~= host_keys(self.hosts@));
            assert(Seq::new(s.hosts.len(), |i: int| s.hosts[i].host()) =~= views(self.hosts@));
            assert(Seq::new(s.networks.len(), |i: int| s.networks[i].vni) =~= network_keys(
                self.networks@,
            ));
            assert(Seq::new(s.networks.len(), |i: int| s.networks[i].network()) =~= views(
                self.networks@,
            ));
            assert(Seq::new(s.ports.len(), |i: int| s.ports[i].port()) =~= views(self.ports@));
            assert(Seq::new(s.security_groups.len(), |i: int| s.security_groups[i].name)
                =~= group_keys(self.security_groups@));
            assert(Seq::new(s.security_groups.len(), |i: int| s.security_groups[i].group())
                =~= views(self.security_groups@));
            assert forall|i: int| 0 <= i < s.networks.len() implies (
            #[trigger] s.networks[i]).network().subnet.valid() by {
                assert(networks@[i]@.network() == self.networks@[i]@);
                assert(self.networks@[i].subnet.valid());
            }
        }
        r
    }

    /// Rebuilds a fabric from a snapshot, without allocating anything anew.
    pub fn from_snapshot(snap: &FabricSnapshot) -> (t: Topology)
        requires
            snap@.usable(),
        ensures
            t.inv(),
            t@ == snap@.model(),
    {
        let ghost s = snap@;
        let ghost hk = Seq::new(s.hosts.len(), |i: int| s.hosts[i].id);
        let ghost hv = Seq::new(s.hosts.len(), |i: int| s.hosts[i].host());
        let ghost nk = Seq::new(s.networks.len(), |i: int| s.networks[i].vni);
        let ghost nv = Seq::new(s.networks.len(), |i: int| s.networks[i].network());
        let ghost pv = Seq::new(s.ports.len(), |i: int| s.ports[i].port());
        let ghost gk = Seq::new(s.security_groups.len(), |i: int| s.security_groups[i].name);
        let ghost gv = Seq::new(s.security_groups.len(), |i: int| s.security_groups[i].group());
        let mut t = Topology::new();
        assert(hk.take(0) =~= Seq::empty());
        for i in 0..snap.hosts.len()
            invariant
                s == snap@,
                hk == Seq::new(s.hosts.len(), |i: int| s.hosts[i].id),
                hv == Seq::new(s.hosts.len(), |i: int| s.hosts[i].host()),
                t.inv(),
                t@ == (TopologyView {
                    hosts: keyed(hk.take(i as int), hv.take(i as int)),
                    ..TopologyView::empty()
                }),
        {
            let host = host_of_rec(&snap.hosts[i]);
            assert(s.hosts[i as int] == snap.hosts@[i as int]@);
            proof {
                keyed_push(hk.take(i as int), hv.take(i as int), host@.id, host@);
            }
            assert(hk.take(i + 1) =~= hk.take(i as int).push(host@.id));
            assert(hv.take(i + 1) =~= hv.take(i as int).push(host@));
            t.add_host(host);
        }
        assert(hk.take(s.hosts.len() as int) =~= hk);
        assert(hv.take(s.hosts.len() as int) =~= hv);
        assert(nk.take(0) =~= Seq::empty());
        for i in 0..snap.networks.len()
            invariant
                s == snap@,
                s.usable(),
                nk == Seq::new(s.networks.len(), |i: int| s.networks[i].vni),
                nv == Seq::new(s.networks.len(), |i: int| s.networks[i].network()),
                t.inv(),
                t@ == (TopologyView {
                    hosts: keyed(hk, hv),
                    networks: keyed(nk.take(i as int), nv.take(i as int)),
                    ..TopologyView::empty()
                }),
        {
            let network = network_of_rec(&snap.networks[i]);
            assert(s.networks[i as int] == snap.networks@[i as int]@);
            assert(s.networks[i as int].network().subnet.valid());
            proof {
                keyed_push(nk.take(i as int), nv.take(i as int), network@.vni, network@);
            }
            assert(nk.take(i + 1) =~= nk.take(i as int).push(network@.vni));
            assert(nv.take(i + 1) =~= nv.take(i as int).push(network@));
            t.put_network(network);
        }
        assert(nk.take(s.networks.len() as int) =~= nk);
        assert(nv.take(s.networks.len() as int) =~= nv);
        for i in 0..snap.ports.len()
            invariant
                s == snap@,
                pv == Seq::new(s.ports.len(), |i: int| s.ports[i].port()),
                t.inv(),
                t@ == (TopologyView {
                    hosts: keyed(hk, hv),
                    networks: keyed(nk, nv),
                    ports: pv.take(i as int),
                    ..TopologyView::empty()
                }),
        {
            let port = port_of_rec(&snap.ports[i]);
            assert(s.ports[i as int] == snap.ports@[i as int]@);
            let ghost before = views(t.ports@);
            t.ports.push(port);
            assert(views(t.ports@) =~= before.push(port@));
            assert(pv.take(i + 1) =~= pv.take(i as int).push(port@));
            assert(t@ =~= (TopologyView {
                hosts: keyed(hk, hv),
                networks: keyed(nk, nv),
                ports: pv.take(i + 1),
                ..TopologyView::empty()
            }));
        }
        assert(pv.take(s.ports.len() as int) =~= pv);
        assert(gk.take(0) =~= Seq::empty());
        for i in 0..snap.security_groups.len()
            invariant
                s == snap@,
                gk == Seq::new(s.security_groups.len(), |i: int| s.security_groups[i].name),
                gv == Seq::new(s.security_groups.len(), |i: int| s.security_groups[i].group()),
                t.inv(),
                t@ == (TopologyView {
                    hosts: keyed(hk, hv),
                    networks: keyed(nk, nv),
                    ports: pv,
                    security_groups: keyed(gk.take(i as int), gv.take(i as int)),
                }),
        {
            let group = group_of_rec(&snap.security_groups[i]);
            assert(s.security_groups[i as int] == snap.security_groups@[i as int]@);
            proof {
                keyed_push(gk.take(i as int), gv.take(i as int), group@.name, group@);
            }
            assert(gk.take(i + 1) =~= gk.take(i as int).push(group@.name));
            assert(gv.take(i + 1) =~= gv.take(i as int).push(group@));
            t.put_group(group);
        }
        assert(gk.take(s.security_groups.len() as int) =~= gk);
        assert(gv.take(s.security_groups.len() as int) =~= gv);
        t
    }

    /// Whether what a host's derivation looks up exists, as it does in every fabric that was built
    /// by these operations; a fabric from a snapshot may lack it.
    pub fn can_derive(&self, host_id: &str) -> (r: bool)
        requires
            self.inv(),
        ensures
            r == self@.derivable(host_id@),
    {
        let vnis = self.local_vnis(host_id);
        let ghost t = self@;
        for i in 0..self.ports.len()
            invariant
                self.inv(),
                t == self@,
                vnis@ == t.local_vnis(host_id@),
                forall|j: int|
                    0 <= j < i && (#[trigger] t.ports[j]).host == host_id@
                        ==> t.networks.dom().contains(t.ports[j].vni),
                forall|j: int|
                    0 <= j < i && t.is_peer(host_id@, #[trigger] t.ports[j])
                        ==> t.hosts.dom().contains(t.ports[j].host),
        {
            let port = &self.ports[i];
            assert(t.ports[i as int] == port@);
            if same(port.host.as_str(), host_id) {
                if self.find_network(port.vni).is_none() {
                    return false;
                }
            } else if contains_u32(&vnis, port.vni) {
                if self.find_host(port.host.as_str()).is_none() {
                    assert(t.is_peer(host_id@, t.ports[i as int]));
                    return false;
                }
            }
        }
        self.ids_differ()
    }

    /// Whether no two groups share a policy id.
    fn ids_differ(&self) -> (r: bool)
        requires
            self.inv(),
        ensures
            r == self@.groups_distinct(),
    {
        let ghost t = self@;
        let ghost ks = group_keys(self.security_groups@);
        proof {
            keyed_domain(ks, views(self.security_groups@));
        }
        for i in 0..self.security_groups.len()
            invariant
                self.inv(),
                t == self@,
                ks == group_keys(self.security_groups@),
                forall|k: Seq<char>| #[trigger]
                    t.security_groups.dom().contains(k) <==> ks.contains(k),
                forall|a: int, b: int|
                    0 <= a < i && 0 <= b < ks.len() && a != b ==> policy_id_of(#[trigger] ks[a])
                        != policy_id_of(#[trigger] ks[b]),
        {
            let pid: u32 = self.security_groups[i].policy_id();
            for j in 0..self.security_groups.len()
                invariant
                    self.inv(),
                    t == self@,
                    i < ks.len(),
                    ks == group_keys(self.security_groups@),
                    forall|k: Seq<char>| #[trigger]
                        t.security_groups.dom().contains(k) <==> ks.contains(k),
                    pid == policy_id_of(ks[i as int]),
                    forall|b: int|
                        0 <= b < j && b != i ==> pid != policy_id_of(#[trigger] ks[b]),
            {
                if j != i && self.security_groups[j].policy_id() == pid {
                    proof {
                        assert(ks.contains(ks[i as int]) && ks.contains(ks[j as int]));
                        assert(t.security_groups.dom().contains(ks[i as int]));
                        assert(t.security_groups.dom().contains(ks[j as int]));
                        if i < j {
                            assert(ks[i as int] != ks[j as int]);
                        } else {
                            assert(ks[j as int] != ks[i as int]);
                        }
                    }
                    return false;
                }
            }
        }
        assert forall|a: Seq<char>, b: Seq<char>|
            #![trigger t.security_groups.dom().contains(a), t.security_groups.dom().contains(b)]
            t.security_groups.dom().contains(a) && t.security_groups.dom().contains(b)
                && policy_id_of(a) == policy_id_of(b) implies a == b by {
            let i = choose|i: int| 0 <= i < ks.len() && ks[i] == a;
            let j = choose|j: int| 0 <= j < ks.len() && ks[j] == b;
        }
        true
    }

    /// Whether the port in place `n` refers only to what exists, and shares neither its interface
    /// nor its address with an earlier one.
    fn port_is_sound(&self, n: usize) -> (r: bool)
        requires
            self.inv(),
            n < self@.ports.len(),
        ensures
            r == ({
                let p = self@.ports[n as int];
                &&& self@.networks.dom().contains(p.vni)
                &&& self@.hosts.dom().contains(p.host)
                &&& p.id == port_id_text(p.vni, p.ip)
                &&& forall|i: int|
                    0 <= i < n ==> !((#[trigger] self@.ports[i]).host == p.host
                        && self@.ports[i].tap == p.tap) && !(self@.ports[i].vni == p.vni
                        && self@.ports[i].ip == p.ip)
            }),
    {
        let p = &self.ports[n];
        assert(self@.ports[n as int] == p@);
        if self.find_network(p.vni).is_none() || self.find_host(p.host.as_str()).is_none() {
            return false;
        }
        if !same(p.id.as_str(), port_id(p.vni, p.ip).as_str()) {
            return false;
        }
        for i in 0..n
            invariant
                n < self.ports@.len(),
                p == self.ports@[n as int],
                self@.ports == views(self.ports@),
                forall|j: int|
                    0 <= j < i ==> !((#[trigger] self@.ports[j]).host == p@.host
                        && self@.ports[j].tap == p@.tap) && !(self@.ports[j].vni == p@.vni
                        && self@.ports[j].ip == p@.ip),
        {
            let q = &self.ports[i];
            assert(self@.ports[i as int] == q@);
            if same(q.host.as_str(), p.host.as_str()) && same(q.tap.as_str(), p.tap.as_str()) {
                return false;
            }
            if q.vni == p.vni && q.ip == p.ip {
                return false;
            }
        }
        true
    }

    /// Whether the fabric is well formed, as it is where it was built by these operations; one from
    /// a snapshot may not be.
    pub fn is_wf(&self) -> (r: bool)
        requires
            self.inv(),
        ensures
            r == self@.wf(),
    {
        let ghost t = self@;
        let ghost vs = network_keys(self.networks@);
        let ghost gs = group_keys(self.security_groups@);
        proof {
            self.inv_keys();
            keyed_domain(vs, views(self.networks@));
            keyed_domain(gs, views(self.security_groups@));
        }
        for i in 0..self.networks.len()
            invariant
                t == self@,
                vs == network_keys(self.networks@),
                forall|v: u32| #[trigger] t.networks.dom().contains(v) <==> vs.contains(v),
                forall|j: int| 0 <= j < i ==> 0 < #[trigger] vs[j] < EVPN_RESERVED_VNI_BASE,
        {
            let vni: u32 = self.networks[i].vni;
            if vni == 0 || vni >= EVPN_RESERVED_VNI_BASE {
                proof {
                    assert(vs[i as int] == vni);
                    assert(vs.contains(vni));
                    assert(t.networks.dom().contains(vni));
                }
                return false;
            }
        }
        assert forall|v: u32| #[trigger] t.networks.dom().contains(v) implies 0 < v
            < EVPN_RESERVED_VNI_BASE by {
            let i = choose|i: int| 0 <= i < vs.len() && vs[i] == v;
        }
        for i in 0..self.security_groups.len()
            invariant
                t == self@,
                gs == group_keys(self.security_groups@),
                forall|k: Seq<char>| #[trigger]
                    t.security_groups.dom().contains(k) <==> gs.contains(k),
                forall|j: int| 0 <= j < i ==> (#[trigger] gs[j]).len() > 0,
        {
            if self.security_groups[i].name.as_str().unicode_len() == 0 {
                proof {
                    assert(gs.contains(gs[i as int]));
                    assert(t.security_groups.dom().contains(gs[i as int]));
                }
                return false;
            }
        }
        assert forall|k: Seq<char>| #[trigger] t.security_groups.dom().contains(k) implies k.len()
            > 0 by {
            let i = choose|i: int| 0 <= i < gs.len() && gs[i] == k;
        }
        for n in 0..self.ports.len()
            invariant
                self.inv(),
                t == self@,
                self.ports@.len() == t.ports.len(),
                forall|j: int|
                    0 <= j < n ==> {
                        let p = #[trigger] t.ports[j];
                        &&& t.networks.dom().contains(p.vni)
                        &&& t.hosts.dom().contains(p.host)
                        &&& p.id == port_id_text(p.vni, p.ip)
                    },
                forall|i: int, j: int|
                    0 <= i < j < n ==> {
                        let p = #[trigger] t.ports[i];
                        let q = #[trigger] t.ports[j];
                        &&& !(p.host == q.host && p.tap == q.tap)
                        &&& !(p.vni == q.vni && p.ip == q.ip)
                    },
        {
            if !self.port_is_sound(n) {
                return false;
            }
        }
        self.ids_differ()
    }
}

// ---------------------------------------------------------------------------
// Laws
// ---------------------------------------------------------------------------

/// A group's policy id is the 32-bit FNV-1a hash of its name, folded into the band above the 24-bit
/// segment numbers: each byte is mixed in with an exclusive or, then multiplied by the prime.
pub proof fn policy_id_is_a_folded_hash(name: Seq<char>, bytes: Seq<u8>, b: u8)
    ensures
        policy_id_of(name) == 0x100_0000 + fnv1a(vstd::utf8::encode_utf8(name)) % 0xFF00_0000,
        policy_id_of(name) >= 0x100_0000,
        fnv1a(Seq::empty()) == 0x811c_9dc5,
        fnv1a(bytes.push(b)) == (fnv1a(bytes) ^ b as u32).wrapping_mul(0x0100_0193),
{
    assert(bytes.push(b).drop_last() =~= bytes);
}

/// The policy that applies to a port is the one set on it, and else that of its network.
pub proof fn set_policy_applies(p: PortView)
    ensures
        p.policy matches Some(pid) ==> p.effective_policy() == pid,
        p.policy is None ==> p.effective_policy() == p.vni,
{
}

/// A MAC address derived from an address is locally administered, that of one station, and ends in the
/// address.
pub proof fn derived_mac_holds_the_address(ip: Ipv4Addr)
    ensures
        mac_of(ip)[0] == 2 && mac_of(ip)[1] == 0,
        mac_of(ip)[2] * 0x100_0000 + mac_of(ip)[3] * 0x1_0000 + mac_of(ip)[4] * 0x100 + mac_of(
            ip,
        )[5] == ip.bits,
{
    crate::addr::octets_recombine(ip.bits);
}

/// The bounds of the ranges of numbers: segments from the first reserved one on are kept free, and the
/// policies of groups lie above all segments.
pub proof fn ranges_of_numbers()
    ensures
        EVPN_RESERVED_VNI_BASE == 0xFF_0000,
        SECURITY_GROUP_POLICY_BASE == 0x100_0000,
{
}

/// What is seen of the records of this module is all that they hold, field by field.
pub proof fn orchestrator_records_are_seen_whole(
    host: Host,
    network: Network,
    port: Port,
    security_group: SecurityGroup,
    host_rec: HostRec,
    network_rec: NetworkRec,
    security_group_rec: SecurityGroupRec,
    port_rec: PortRec,
    fabric_snapshot: FabricSnapshot,
)
    ensures
        host@.id == host.id@,
        host@.vtep_ip == host.vtep_ip,
        host@.underlay_iface == host.underlay_iface@,
        host@.underlay_mac == host.underlay_mac,
        host@.encap == host.encap,
        host@.udp_port == host.udp_port,
        host@.underlay_mtu == host.underlay_mtu,
        network@.vni == network.vni,
        network@.name == network.name@,
        network@.subnet == network.subnet,
        network@.default_action == network.default_action,
        network@.drop_icmp == network.drop_icmp,
        port@.id == port.id@,
        port@.vni == port.vni,
        port@.policy == port.policy,
        port@.host == port.host@,
        port@.ip == port.ip,
        port@.mac == port.mac,
        port@.tap == port.tap@,
        security_group@.name == security_group.name@,
        security_group@.default_action == security_group.default_action,
        security_group@.drop_icmp == security_group.drop_icmp,
        security_group@.stateful == security_group.stateful,
        security_group@.blocklist == views(security_group.blocklist@),
        security_group@.rules == views(security_group.rules@),
        host_rec@.id == host_rec.id@,
        host_rec@.vtep_ip == host_rec.vtep_ip,
        host_rec@.underlay_iface == host_rec.underlay_iface@,
        host_rec@.underlay_mac == host_rec.underlay_mac,
        host_rec@.encap == host_rec.encap,
        host_rec@.udp_port == host_rec.udp_port,
        host_rec@.underlay_mtu == host_rec.underlay_mtu,
        network_rec@.vni == network_rec.vni,
        network_rec@.name == network_rec.name@,
        network_rec@.subnet_octets == network_rec.subnet_octets,
        network_rec@.subnet_prefix == network_rec.subnet_prefix,
        network_rec@.default_action == network_rec.default_action,
        network_rec@.drop_icmp == network_rec.drop_icmp,
        security_group_rec@.name == security_group_rec.name@,
        security_group_rec@.default_action == security_group_rec.default_action,
        security_group_rec@.drop_icmp == security_group_rec.drop_icmp,
        security_group_rec@.stateful == security_group_rec.stateful,
        security_group_rec@.blocklist == views(security_group_rec.blocklist@),
        security_group_rec@.rules == views(security_group_rec.rules@),
        port_rec@.id == port_rec.id@,
        port_rec@.vni == port_rec.vni,
        port_rec@.policy == port_rec.policy,
        port_rec@.host == port_rec.host@,
        port_rec@.ip == port_rec.ip,
        port_rec@.mac == port_rec.mac,
        port_rec@.tap == port_rec.tap@,
        fabric_snapshot@.hosts == views(fabric_snapshot.hosts@),
        fabric_snapshot@.networks == views(fabric_snapshot.networks@),
        fabric_snapshot@.ports == views(fabric_snapshot.ports@),
        fabric_snapshot@.security_groups == views(fabric_snapshot.security_groups@),
{
}

/// A snapshot in which no key occurs twice describes exactly the hosts, networks, ports and groups
/// that it lists, each as its record says it; an address is the number that its four octets write.
#[verifier::spinoff_prover]
pub proof fn snapshot_describes_its_records(s: FabricSnapshotView)
    requires
        forall|i: int, j: int|
            0 <= i < j < s.hosts.len() ==> (#[trigger] s.hosts[i]).id != (#[trigger] s.hosts[j]).id,
        forall|i: int, j: int|
            0 <= i < j < s.networks.len() ==> (#[trigger] s.networks[i]).vni != (
            #[trigger] s.networks[j]).vni,
        forall|i: int, j: int|
            0 <= i < j < s.security_groups.len() ==> (#[trigger] s.security_groups[i]).name != (
            #[trigger] s.security_groups[j]).name,
    ensures
        forall|id: Seq<char>| #[trigger]
            s.model().hosts.dom().contains(id) ==> exists|i: int|
                0 <= i < s.hosts.len() && (#[trigger] s.hosts[i]).id == id,
        forall|vni: u32| #[trigger]
            s.model().networks.dom().contains(vni) ==> exists|i: int|
                0 <= i < s.networks.len() && (#[trigger] s.networks[i]).vni == vni,
        forall|name: Seq<char>| #[trigger]
            s.model().security_groups.dom().contains(name) ==> exists|i: int|
                0 <= i < s.security_groups.len() && (#[trigger] s.security_groups[i]).name == name,
        forall|i: int|
            0 <= i < s.hosts.len() ==> ({
                let r = #[trigger] s.hosts[i];
                let h = s.model().hosts[r.id];
                &&& s.model().hosts.dom().contains(r.id)
                &&& h.id == r.id
                &&& h.vtep_ip.bits == r.vtep_ip[0] * 16777216 + r.vtep_ip[1] * 65536 + r.vtep_ip[2]
                    * 256 + r.vtep_ip[3]
                &&& h.underlay_iface == r.underlay_iface
                &&& h.underlay_mac == r.underlay_mac
                &&& h.encap == r.encap
                &&& h.udp_port == r.udp_port
                &&& h.underlay_mtu == r.underlay_mtu
            }),
        forall|i: int|
            0 <= i < s.networks.len() ==> ({
                let r = #[trigger] s.networks[i];
                let n = s.model().networks[r.vni];
                &&& s.model().networks.dom().contains(r.vni)
                &&& n.vni == r.vni
                &&& n.name == r.name
                &&& n.subnet.octets == r.subnet_octets
                &&& n.subnet.prefix == r.subnet_prefix
                &&& n.default_action == r.default_action
                &&& n.drop_icmp == r.drop_icmp
            }),
        s.model().ports.len() == s.ports.len(),
        forall|i: int|
            0 <= i < s.ports.len() ==> ({
                let r = #[trigger] s.ports[i];
                let p = s.model().ports[i];
                &&& p.id == r.id
                &&& p.vni == r.vni
                &&& p.policy == r.policy
                &&& p.host == r.host
                &&& p.ip.bits == r.ip[0] * 16777216 + r.ip[1] * 65536 + r.ip[2] * 256 + r.ip[3]
                &&& p.mac == r.mac
                &&& p.tap == r.tap
            }),
        forall|i: int|
            0 <= i < s.security_groups.len() ==> ({
                let r = #[trigger] s.security_groups[i];
                let g = s.model().security_groups[r.name];
                &&& s.model().security_groups.dom().contains(r.name)
                &&& g.name == r.name
                &&& g.default_action == r.default_action
                &&& g.drop_icmp == r.drop_icmp
                &&& g.stateful == r.stateful
                &&& g.blocklist == r.blocklist
                &&& g.rules == r.rules
            }),
{
    let hk = Seq::new(s.hosts.len(), |i: int| s.hosts[i].id);
    let hv = Seq::new(s.hosts.len(), |i: int| s.hosts[i].host());
    let nk = Seq::new(s.networks.len(), |i: int| s.networks[i].vni);
    let nv = Seq::new(s.networks.len(), |i: int| s.networks[i].network());
    let gk = Seq::new(s.security_groups.len(), |i: int| s.security_groups[i].name);
    let gv = Seq::new(s.security_groups.len(), |i: int| s.security_groups[i].group());
    keyed_domain(hk, hv);
    keyed_domain(nk, nv);
    keyed_domain(gk, gv);
    assert forall|i: int| 0 <= i < s.hosts.len() implies keyed(hk, hv).dom().contains(
        (#[trigger] s.hosts[i]).id,
    ) && keyed(hk, hv)[s.hosts[i].id] == s.hosts[i].host() by {
        assert(distinct(hk));
        keyed_at(hk, hv, i);
    }
    assert forall|i: int| 0 <= i < s.networks.len() implies keyed(nk, nv).dom().contains(
        (#[trigger] s.networks[i]).vni,
    ) && keyed(nk, nv)[s.networks[i].vni] == s.networks[i].network() by {
        assert(distinct(nk));
        keyed_at(nk, nv, i);
    }
    assert forall|i: int| 0 <= i < s.security_groups.len() implies keyed(gk, gv).dom().contains(
        (#[trigger] s.security_groups[i]).name,
    ) && keyed(gk, gv)[s.security_groups[i].name] == s.security_groups[i].group() by {
        assert(distinct(gk));
        keyed_at(gk, gv, i);
    }
    assert forall|id: Seq<char>| #[trigger] s.model().hosts.dom().contains(id) implies exists|
        i: int,
    | 0 <= i < s.hosts.len() && (#[trigger] s.hosts[i]).id == id by {
        let i = choose|i: int| 0 <= i < hk.len() && hk[i] == id;
        assert(s.hosts[i].id == id);
    }
    assert forall|vni: u32| #[trigger] s.model().networks.dom().contains(vni) implies exists|i: int|
        0 <= i < s.networks.len() && (#[trigger] s.networks[i]).vni == vni by {
        let i = choose|i: int| 0 <= i < nk.len() && nk[i] == vni;
        assert(s.networks[i].vni == vni);
    }
    assert forall|name: Seq<char>| #[trigger]
        s.model().security_groups.dom().contains(name) implies exists|i: int|
        0 <= i < s.security_groups.len() && (#[trigger] s.security_groups[i]).name == name by {
        let i = choose|i: int| 0 <= i < gk.len() && gk[i] == name;
        assert(s.security_groups[i].name == name);
    }
}

/// A network that is not added is refused for the first of these reasons: its VNI is zero, lies in
/// the range from 0xff0000 on, or is in use; the reason gives the VNI.
pub proof fn refused_network_is_told_why(t: TopologyView, n: NetworkView)
    ensures
        n.vni == 0 ==> t.add_network(n).1 == Err::<(), Seq<char>>("network vni must be non-zero"@),
        n.vni >= 0xFF_0000 ==> t.add_network(n).1 == Err::<(), Seq<char>>(
            "network vni 0x"@ + hexadecimal(n.vni as nat)
                + " is reserved for the EVPN/FPM control-plane path (>= 0x"@ + hexadecimal(
                0xFF_0000,
            ) + "); orchestrator-managed networks must use 1..0x"@ + hexadecimal(0xFF_0000),
        ),
        0 < n.vni < 0xFF_0000 && t.networks.dom().contains(n.vni) ==> t.add_network(n).1 == Err::<
            (),
            Seq<char>,
        >("network vni "@ + decimal(n.vni as nat) + " already exists"@),
        0 < n.vni < 0xFF_0000 && !t.networks.dom().contains(n.vni) ==> t.add_network(n).1 is Ok,
{
}

/// A host, a network or a group that a port still uses is kept, and the reason names the one asked
/// for and the first such port.
pub proof fn kept_entry_is_told_why(
    t: TopologyView,
    id: Seq<char>,
    vni: u32,
    name: Seq<char>,
    i: int,
)
    requires
        0 <= i < t.ports.len(),
    ensures
        t.ports[i].host == id && (forall|j: int| 0 <= j < i ==> (#[trigger] t.ports[j]).host != id)
            ==> t.remove_host(id) == (
            t,
            Err::<bool, Seq<char>>(
                "host "@ + debug_text(id) + " still has port "@ + debug_text(t.ports[i].id)
                    + "; migrate or remove it first"@,
            ),
        ),
        t.ports[i].vni == vni && (forall|j: int| 0 <= j < i ==> (#[trigger] t.ports[j]).vni != vni)
            ==> t.remove_network(vni) == (
            t,
            Err::<bool, Seq<char>>(
                "network "@ + decimal(vni as nat) + " still has port "@ + debug_text(t.ports[i].id)
                    + "; remove it first"@,
            ),
        ),
        t.security_groups.dom().contains(name) && t.ports[i].policy == Some(policy_id_of(name)) && (
        forall|j: int|
            0 <= j < i ==> (#[trigger] t.ports[j]).policy != Some(policy_id_of(name)))
            ==> t.remove_security_group(name) == (
            t,
            Err::<bool, Seq<char>>(
                "security group "@ + debug_text(name) + " still bound by port "@ + debug_text(
                    t.ports[i].id,
                ) + "; rebind or remove it first"@,
            ),
        ),
{
    if t.ports[i].host == id && (forall|j: int| 0 <= j < i ==> (#[trigger] t.ports[j]).host != id) {
        first_index_is(t.ports, on_host(id), i);
    }
    if t.ports[i].vni == vni && (forall|j: int| 0 <= j < i ==> (#[trigger] t.ports[j]).vni != vni) {
        first_index_is(t.ports, on_network(vni), i);
    }
    if t.ports[i].policy == Some(policy_id_of(name)) && (forall|j: int|
        0 <= j < i ==> (#[trigger] t.ports[j]).policy != Some(policy_id_of(name))) {
        first_index_is(t.ports, bound_to(policy_id_of(name)), i);
    }
}

/// A group that is not added is refused for the first of these reasons: it has no name, its name is
/// in use, or its policy id is that of another group, which the reason then names.
pub proof fn refused_group_is_told_why(
    t: TopologyView,
    g: SecurityGroupView,
    after: TopologyView,
    outcome: Result<(), Seq<char>>,
)
    requires
        t.add_security_group(g, after, outcome),
    ensures
        outcome is Ok <==> g.name.len() > 0 && !t.security_groups.dom().contains(g.name) && forall|
            n: Seq<char>,
        | #[trigger]
            t.security_groups.dom().contains(n) ==> policy_id_of(n) != policy_id_of(g.name),
        outcome is Err ==> after == t,
        outcome is Ok ==> after.security_groups == t.security_groups.insert(g.name, g)
            && after.hosts == t.hosts && after.networks == t.networks && after.ports == t.ports,
        g.name.len() == 0 ==> outcome == Err::<(), Seq<char>>(
            "security group name must not be empty"@,
        ),
        g.name.len() > 0 && t.security_groups.dom().contains(g.name) ==> outcome == Err::<
            (),
            Seq<char>,
        >("security group "@ + debug_text(g.name) + " already exists"@),
        g.name.len() > 0 && !t.security_groups.dom().contains(g.name) && outcome is Err ==> exists|
            n: Seq<char>,
        |
            {
                &&& #[trigger] t.security_groups.dom().contains(n)
                &&& policy_id_of(n) == policy_id_of(g.name)
                &&& outcome == Err::<(), Seq<char>>(
                    "security group "@ + debug_text(g.name) + " hashes to the same policy_id "@
                        + decimal(policy_id_of(g.name) as nat) + " as "@ + debug_text(n)
                        + "; rename one"@,
                )
            },
{
    let pid = policy_id_of(g.name);
    assert forall|n: Seq<char>| #[trigger]
        t.security_groups.dom().contains(n) && policy_id_of(n) == pid implies t.has_group_of(
        pid,
    ) by {
        assert(t.is_group_of(pid, n));
    }
    if t.has_group_of(pid) {
        let n = choose|n: Seq<char>| t.is_group_of(pid, n);
        assert(t.security_groups.dom().contains(n) && policy_id_of(n) == pid);
    }
    if g.name.len() > 0 && !t.security_groups.dom().contains(g.name) && outcome is Err {
        let n = choose|n: Seq<char>| #[trigger]
            t.is_group_of(pid, n) && outcome == Err::<(), Seq<char>>(collision_text(g.name, n));
        assert(t.security_groups.dom().contains(n));
    }
}

/// Why a port is not created: its network or its host is unknown, its interface is taken, or there
/// is no address for it, in this order.
pub proof fn refused_port_is_told_why(
    t: TopologyView,
    vni: u32,
    host: Seq<char>,
    tap: Seq<char>,
    requested: Option<Ipv4Addr>,
    policy: Option<u32>,
    mac: Option<[u8; 6]>,
)
    ensures
        ({
            let r = t.create_port(vni, host, tap, requested, policy, mac);
            let taken = exists|i: int|
                0 <= i < t.ports.len() && (#[trigger] t.ports[i]).host == host && t.ports[i].tap
                    == tap;
            let known = t.networks.dom().contains(vni) && t.hosts.dom().contains(host);
            let free = known && !taken;
            let c = t.networks[vni].subnet;
            &&& r.1 is Err ==> r.0 == t
            &&& !t.networks.dom().contains(vni) ==> r.1 == Err::<PortView, Seq<char>>(
                "unknown network vni "@ + decimal(vni as nat),
            )
            &&& t.networks.dom().contains(vni) && !t.hosts.dom().contains(host) ==> r.1 == Err::<
                PortView,
                Seq<char>,
            >("unknown host "@ + debug_text(host))
            &&& known && taken ==> r.1 == Err::<PortView, Seq<char>>(
                "tap "@ + debug_text(tap) + " on host "@ + debug_text(host)
                    + " is already bound to another port"@,
            )
            &&& requested matches Some(ip) ==> {
                let held = exists|i: int|
                    0 <= i < t.ports.len() && (#[trigger] t.ports[i]).vni == vni && t.ports[i].ip
                        == ip;
                &&& free && !c.contains(ip) ==> r.1 == Err::<PortView, Seq<char>>(
                    "ip "@ + ipv4_text(ip) + " is outside network "@ + decimal(vni as nat)
                        + "'s subnet"@,
                )
                &&& free && c.contains(ip) && held ==> r.1 == Err::<PortView, Seq<char>>(
                    "ip "@ + ipv4_text(ip) + " is already allocated on network "@ + decimal(
                        vni as nat,
                    ),
                )
                &&& free && c.contains(ip) && !held ==> r.1 is Ok
            }
            &&& requested is None && free && c.span() < 3 ==> r.1 == Err::<PortView, Seq<char>>(
                "network "@ + decimal(vni as nat) + " subnet is too small for a host address"@,
            )
            &&& requested is None && free && c.span() >= 3 && r.1 is Err ==> r.1 == Err::<
                PortView,
                Seq<char>,
            >("network "@ + decimal(vni as nat) + " has no free addresses"@)
        }),
{
    first_index_properties(t.ports, at_tap(host, tap));
    match requested {
        Some(ip) => {
            first_index_properties(t.ports, at_address(vni, ip.bits as int));
            if exists|i: int|
                0 <= i < t.ports.len() && (#[trigger] t.ports[i]).vni == vni && t.ports[i].ip
                    == ip {
                let i = choose|i: int|
                    0 <= i < t.ports.len() && (#[trigger] t.ports[i]).vni == vni && t.ports[i].ip
                        == ip;
                assert(at_address(vni, ip.bits as int)(t.ports[i]));
            }
        },
        None => {},
    }
    if exists|i: int|
        0 <= i < t.ports.len() && (#[trigger] t.ports[i]).host == host && t.ports[i].tap == tap {
        let i = choose|i: int|
            0 <= i < t.ports.len() && (#[trigger] t.ports[i]).host == host && t.ports[i].tap == tap;
        assert(at_tap(host, tap)(t.ports[i]));
    }
}

/// Why a port is not moved or bound: the host is unknown, another port has the interface, the group
/// is unknown, or the port is.
pub proof fn refused_change_is_told_why(
    t: TopologyView,
    id: Seq<char>,
    host: Seq<char>,
    tap: Seq<char>,
    group: Option<Seq<char>>,
)
    ensures
        ({
            let moved = t.migrate_port(id, host, tap);
            let taken = exists|i: int|
                0 <= i < t.ports.len() && (#[trigger] t.ports[i]).host == host && t.ports[i].tap
                    == tap && t.ports[i].id != id;
            let there = exists|i: int| 0 <= i < t.ports.len() && (#[trigger] t.ports[i]).id == id;
            &&& moved.1 is Ok <==> t.hosts.dom().contains(host) && !taken && there
            &&& moved.1 is Err ==> moved.0 == t
            &&& !t.hosts.dom().contains(host) ==> moved.1 == Err::<PortView, Seq<char>>(
                "unknown host "@ + debug_text(host),
            )
            &&& t.hosts.dom().contains(host) && taken ==> moved.1 == Err::<PortView, Seq<char>>(
                "tap "@ + debug_text(tap) + " on host "@ + debug_text(host)
                    + " is already bound to another port"@,
            )
            &&& t.hosts.dom().contains(host) && !taken && !there ==> moved.1 == Err::<
                PortView,
                Seq<char>,
            >("unknown port "@ + debug_text(id))
        }),
        ({
            let bound = t.set_port_security_group(id, group);
            let there = exists|i: int| 0 <= i < t.ports.len() && (#[trigger] t.ports[i]).id == id;
            let unknown = group matches Some(name) && !t.security_groups.dom().contains(name);
            &&& bound.1 is Ok <==> !unknown && there
            &&& bound.1 is Err ==> bound.0 == t
            &&& group matches Some(name) ==> (!t.security_groups.dom().contains(name) ==> bound.1
                == Err::<PortView, Seq<char>>("unknown security group "@ + debug_text(name)))
            &&& !unknown && !there ==> bound.1 == Err::<PortView, Seq<char>>(
                "unknown port "@ + debug_text(id),
            )
        }),
{
    first_index_properties(t.ports, with_id(id));
    if first_index(t.ports, with_id(id)) < t.ports.len() {
        assert(t.ports[first_index(t.ports, with_id(id))].id == id);
    }
    if exists|i: int| 0 <= i < t.ports.len() && (#[trigger] t.ports[i]).id == id {
        let i = choose|i: int| 0 <= i < t.ports.len() && (#[trigger] t.ports[i]).id == id;
        assert(with_id(id)(t.ports[i]));
    }
    first_index_properties(t.ports, other_at_tap(id, host, tap));
    if exists|i: int|
        0 <= i < t.ports.len() && (#[trigger] t.ports[i]).host == host && t.ports[i].tap == tap
            && t.ports[i].id != id {
        let i = choose|i: int|
            0 <= i < t.ports.len() && (#[trigger] t.ports[i]).host == host && t.ports[i].tap == tap
                && t.ports[i].id != id;
        assert(other_at_tap(id, host, tap)(t.ports[i]));
    }
}

/// Segments from 0xff0000 on are kept for the control plane, and the policies of security groups lie
/// above every segment.
pub proof fn reserved_numbers()
    ensures
        EVPN_RESERVED_VNI_BASE == 0xFF_0000,
        SECURITY_GROUP_POLICY_BASE == 0xFF_FFFF + 1,
{
}

} // verus!
