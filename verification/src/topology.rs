//! The declarative form of a fabric: one file that lists its hosts, networks, subnets, security
//! groups, routing contexts, ports and load balancers; how it becomes a fabric, and how a fabric is
//! written back.

use vstd::arithmetic::power2::lemma2_to64;
use vstd::prelude::*;

use crate::addr::{
    cidr_fault, cidr_fault_text, cidr_v4_of, ip_of, ipv4_of, ipv6_of, is_station, mac_fault,
    mac_fault_text, mac_from, names_station, parse_cidr_v4, parse_ipv6, parse_mac, IpAddr, Ipv4Addr,
};
use crate::addr_laws::{block_contains, cidr_v4_canonical, cidr_v6_canonical};
use crate::config::{clone_rules, ActionName, EncapName, PortRule, PortRuleView, ProtoName};
use crate::error::{caused, result_view, Error};
use crate::lists::{
    first_index, first_index_is, first_index_properties, try_steps, try_steps_failed, try_steps_next,
};
use crate::orchestrator::{
    at_tap, collision_text, lowest_free, lowest_free_properties, policy_id_of, with_id, Host,
    HostView, Network, NetworkView, Port, PortView, SecurityGroup, SecurityGroupView, Topology,
    TopologyView,
};
use crate::sorted::{map_views, NumberKey, SortedMap, TextKey};
use crate::srv6::Locator;
use crate::store::{
    is_v6_text, looks_v6, parse_subnet_cidr, subnet_cidr_of, AllocRange, Subnet, SubnetCidr,
    SubnetView,
};
use crate::text::{
    chars_of, clone_strings, debug_str, debug_text, decimal, find_char, find_from, opt_view,
    parse_unsigned, push_decimal, same, sub_chars, unsigned_value, views,
};

verus! {

/// A host of the file.
#[derive(Debug, PartialEq, Eq)]
pub struct HostFile {
    pub id: String,
    pub vtep: String,
    pub underlay_iface: String,
    pub underlay_mac: String,
    pub encap: EncapName,
    pub udp_port: Option<u16>,
    pub underlay_mtu: Option<u16>,
    /// The SRv6 locator as `prefix/len`, on a host that uses SRv6.
    pub srv6_locator: Option<String>,
}

/// What a [`HostFile`] holds.
#[verifier::ext_equal]
pub struct HostFileView {
    pub id: Seq<char>,
    pub vtep: Seq<char>,
    pub underlay_iface: Seq<char>,
    pub underlay_mac: Seq<char>,
    pub encap: EncapName,
    pub udp_port: Option<u16>,
    pub underlay_mtu: Option<u16>,
    pub srv6_locator: Option<Seq<char>>,
}

impl View for HostFile {
    type V = HostFileView;

    open spec fn view(&self) -> HostFileView {
        HostFileView {
            id: self.id@,
            vtep: self.vtep@,
            underlay_iface: self.underlay_iface@,
            underlay_mac: self.underlay_mac@,
            encap: self.encap,
            udp_port: self.udp_port,
            underlay_mtu: self.underlay_mtu,
            srv6_locator: opt_view(self.srv6_locator),
        }
    }
}

/// A network of the file.
#[derive(Debug, PartialEq, Eq)]
pub struct NetworkFile {
    pub vni: u32,
    pub name: String,
    pub subnet: String,
    pub default_action: ActionName,
    pub drop_icmp: bool,
}

/// What a [`NetworkFile`] holds.
#[verifier::ext_equal]
pub struct NetworkFileView {
    pub vni: u32,
    pub name: Seq<char>,
    pub subnet: Seq<char>,
    pub default_action: ActionName,
    pub drop_icmp: bool,
}

impl View for NetworkFile {
    type V = NetworkFileView;

    open spec fn view(&self) -> NetworkFileView {
        NetworkFileView {
            vni: self.vni,
            name: self.name@,
            subnet: self.subnet@,
            default_action: self.default_action,
            drop_icmp: self.drop_icmp,
        }
    }
}

/// A subnet of the file.
#[derive(Debug, PartialEq, Eq)]
pub struct SubnetFile {
    pub id: String,
    pub vni: u32,
    pub cidr: String,
    pub gateway: Option<String>,
    pub pool_start: Option<String>,
    pub pool_end: Option<String>,
    pub enable_dhcp: bool,
}

/// What a [`SubnetFile`] holds.
#[verifier::ext_equal]
pub struct SubnetFileView {
    pub id: Seq<char>,
    pub vni: u32,
    pub cidr: Seq<char>,
    pub gateway: Option<Seq<char>>,
    pub pool_start: Option<Seq<char>>,
    pub pool_end: Option<Seq<char>>,
    pub enable_dhcp: bool,
}

impl View for SubnetFile {
    type V = SubnetFileView;

    open spec fn view(&self) -> SubnetFileView {
        SubnetFileView {
            id: self.id@,
            vni: self.vni,
            cidr: self.cidr@,
            gateway: opt_view(self.gateway),
            pool_start: opt_view(self.pool_start),
            pool_end: opt_view(self.pool_end),
            enable_dhcp: self.enable_dhcp,
        }
    }
}

/// A security group of the file.
#[derive(Debug, PartialEq, Eq)]
pub struct SecurityGroupFile {
    pub name: String,
    pub default_action: ActionName,
    pub drop_icmp: bool,
    pub stateful: bool,
    pub blocklist: Vec<String>,
    pub rules: Vec<PortRule>,
}

/// What a [`SecurityGroupFile`] holds.
#[verifier::ext_equal]
pub struct SecurityGroupFileView {
    pub name: Seq<char>,
    pub default_action: ActionName,
    pub drop_icmp: bool,
    pub stateful: bool,
    pub blocklist: Seq<Seq<char>>,
    pub rules: Seq<PortRuleView>,
}

impl View for SecurityGroupFile {
    type V = SecurityGroupFileView;

    open spec fn view(&self) -> SecurityGroupFileView {
        SecurityGroupFileView {
            name: self.name@,
            default_action: self.default_action,
            drop_icmp: self.drop_icmp,
            stateful: self.stateful,
            blocklist: views(self.blocklist@),
            rules: views(self.rules@),
        }
    }
}

/// A routing context of the file.
#[derive(Debug, PartialEq, Eq)]
pub struct IpVrfFile {
    pub l3_vni: u32,
    pub name: String,
    pub gateway_mac: String,
    pub networks: Vec<u32>,
}

/// What a [`IpVrfFile`] holds.
#[verifier::ext_equal]
pub struct IpVrfFileView {
    pub l3_vni: u32,
    pub name: Seq<char>,
    pub gateway_mac: Seq<char>,
    pub networks: Seq<u32>,
}

impl View for IpVrfFile {
    type V = IpVrfFileView;

    open spec fn view(&self) -> IpVrfFileView {
        IpVrfFileView {
            l3_vni: self.l3_vni,
            name: self.name@,
            gateway_mac: self.gateway_mac@,
            networks: self.networks@,
        }
    }
}

/// A member of a load balancer, named by the host and the interface of its port.
#[derive(Debug, PartialEq, Eq)]
pub struct LbMemberFile {
    pub host: String,
    pub tap: String,
    /// Backend port, or 0 to keep the port of the client's request.
    pub port: u16,
}

/// What a [`LbMemberFile`] holds.
#[verifier::ext_equal]
pub struct LbMemberFileView {
    pub host: Seq<char>,
    pub tap: Seq<char>,
    pub port: u16,
}

impl View for LbMemberFile {
    type V = LbMemberFileView;

    open spec fn view(&self) -> LbMemberFileView {
        LbMemberFileView {
            host: self.host@,
            tap: self.tap@,
            port: self.port,
        }
    }
}

/// A load balancer of the file.
#[derive(Debug, PartialEq, Eq)]
pub struct LoadBalancerFile {
    pub id: String,
    pub vni: u32,
    pub vip: String,
    pub port: u16,
    pub proto: ProtoName,
    pub members: Vec<LbMemberFile>,
}

/// What a [`LoadBalancerFile`] holds.
#[verifier::ext_equal]
pub struct LoadBalancerFileView {
    pub id: Seq<char>,
    pub vni: u32,
    pub vip: Seq<char>,
    pub port: u16,
    pub proto: ProtoName,
    pub members: Seq<LbMemberFileView>,
}

impl View for LoadBalancerFile {
    type V = LoadBalancerFileView;

    open spec fn view(&self) -> LoadBalancerFileView {
        LoadBalancerFileView {
            id: self.id@,
            vni: self.vni,
            vip: self.vip@,
            port: self.port,
            proto: self.proto,
            members: views(self.members@),
        }
    }
}

/// A port of the file.
#[derive(Debug, PartialEq, Eq)]
pub struct PortFile {
    pub network: u32,
    pub host: String,
    pub tap: String,
    /// Address, or `None` to allocate one.
    pub ip: Option<String>,
    /// Policy id, or `None` to use the VNI.
    pub policy: Option<u32>,
    /// Security group to bind to; counts over `policy`.
    pub security_group: Option<String>,
    /// MAC address, or `None` to derive it from the address.
    pub mac: Option<String>,
}

/// What a [`PortFile`] holds.
#[verifier::ext_equal]
pub struct PortFileView {
    pub network: u32,
    pub host: Seq<char>,
    pub tap: Seq<char>,
    pub ip: Option<Seq<char>>,
    pub policy: Option<u32>,
    pub security_group: Option<Seq<char>>,
    pub mac: Option<Seq<char>>,
}

impl View for PortFile {
    type V = PortFileView;

    open spec fn view(&self) -> PortFileView {
        PortFileView {
            network: self.network,
            host: self.host@,
            tap: self.tap@,
            ip: opt_view(self.ip),
            policy: self.policy,
            security_group: opt_view(self.security_group),
            mac: opt_view(self.mac),
        }
    }
}

/// The whole file.
#[derive(Debug, PartialEq, Eq)]
pub struct TopologyFile {
    pub hosts: Vec<HostFile>,
    pub networks: Vec<NetworkFile>,
    pub subnets: Vec<SubnetFile>,
    pub security_groups: Vec<SecurityGroupFile>,
    pub ip_vrfs: Vec<IpVrfFile>,
    pub load_balancers: Vec<LoadBalancerFile>,
    pub ports: Vec<PortFile>,
}

/// What a [`TopologyFile`] holds.
#[verifier::ext_equal]
pub struct TopologyFileView {
    pub hosts: Seq<HostFileView>,
    pub networks: Seq<NetworkFileView>,
    pub subnets: Seq<SubnetFileView>,
    pub security_groups: Seq<SecurityGroupFileView>,
    pub ip_vrfs: Seq<IpVrfFileView>,
    pub load_balancers: Seq<LoadBalancerFileView>,
    pub ports: Seq<PortFileView>,
}

impl View for TopologyFile {
    type V = TopologyFileView;

    open spec fn view(&self) -> TopologyFileView {
        TopologyFileView {
            hosts: views(self.hosts@),
            networks: views(self.networks@),
            subnets: views(self.subnets@),
            security_groups: views(self.security_groups@),
            ip_vrfs: views(self.ip_vrfs@),
            load_balancers: views(self.load_balancers@),
            ports: views(self.ports@),
        }
    }
}

/// A tenant's routing context: the segments that are routed in it, and the gateway MAC address that
/// every host uses.
#[derive(Debug, PartialEq, Eq)]
pub struct IpVrf {
    pub l3_vni: u32,
    pub name: String,
    pub gateway_mac: [u8; 6],
    pub networks: Vec<u32>,
}

/// What a [`IpVrf`] holds.
#[verifier::ext_equal]
pub struct IpVrfView {
    pub l3_vni: u32,
    pub name: Seq<char>,
    pub gateway_mac: [u8; 6],
    pub networks: Seq<u32>,
}

impl View for IpVrf {
    type V = IpVrfView;

    open spec fn view(&self) -> IpVrfView {
        IpVrfView {
            l3_vni: self.l3_vni,
            name: self.name@,
            gateway_mac: self.gateway_mac,
            networks: self.networks@,
        }
    }
}

/// A member of a load balancer.
#[derive(Debug, PartialEq, Eq)]
pub struct LbMember {
    pub port_id: String,
    pub port: u16,
}

/// What a [`LbMember`] holds.
#[verifier::ext_equal]
pub struct LbMemberView {
    pub port_id: Seq<char>,
    pub port: u16,
}

impl View for LbMember {
    type V = LbMemberView;

    open spec fn view(&self) -> LbMemberView {
        LbMemberView {
            port_id: self.port_id@,
            port: self.port,
        }
    }
}

/// A virtual address in front of a pool of ports.
#[derive(Debug, PartialEq, Eq)]
pub struct LoadBalancer {
    pub id: String,
    pub vni: u32,
    pub vip: Ipv4Addr,
    pub port: u16,
    pub proto: ProtoName,
    pub members: Vec<LbMember>,
}

/// What a [`LoadBalancer`] holds.
#[verifier::ext_equal]
pub struct LoadBalancerView {
    pub id: Seq<char>,
    pub vni: u32,
    pub vip: Ipv4Addr,
    pub port: u16,
    pub proto: ProtoName,
    pub members: Seq<LbMemberView>,
}

impl View for LoadBalancer {
    type V = LoadBalancerView;

    open spec fn view(&self) -> LoadBalancerView {
        LoadBalancerView {
            id: self.id@,
            vni: self.vni,
            vip: self.vip,
            port: self.port,
            proto: self.proto,
            members: views(self.members@),
        }
    }
}

/// A fabric with all that a file declares.
pub struct Fabric {
    pub topo: Topology,
    /// The SRv6 locators of hosts, by host id.
    pub locators: SortedMap<TextKey, Locator>,
    /// Subnets, by id.
    pub subnets: SortedMap<TextKey, Subnet>,
    /// Routing contexts, by layer-3 segment.
    pub ip_vrfs: SortedMap<NumberKey, IpVrf>,
    /// Load balancers, by id.
    pub load_balancers: SortedMap<TextKey, LoadBalancer>,
}

/// What a [`Fabric`] holds.
#[verifier::ext_equal]
pub struct FabricView {
    pub topo: TopologyView,
    pub locators: Map<Seq<char>, Locator>,
    pub subnets: Map<Seq<char>, SubnetView>,
    pub ip_vrfs: Map<u32, IpVrfView>,
    pub load_balancers: Map<Seq<char>, LoadBalancerView>,
}

impl View for Fabric {
    type V = FabricView;

    open spec fn view(&self) -> FabricView {
        FabricView {
            topo: self.topo@,
            locators: self.locators@,
            subnets: map_views(self.subnets@),
            ip_vrfs: map_views(self.ip_vrfs@),
            load_balancers: map_views(self.load_balancers@),
        }
    }
}

impl FabricView {
    /// The fabric without anything in it.
    pub open spec fn empty() -> FabricView {
        FabricView {
            topo: TopologyView::empty(),
            locators: Map::empty(),
            subnets: Map::empty(),
            ip_vrfs: Map::empty(),
            load_balancers: Map::empty(),
        }
    }

    /// The hosts, networks, ports and groups are well formed, and every other table goes by what it
    /// holds.
    pub open spec fn tables_match(self) -> bool {
        &&& self.topo.wf()
        &&& forall|id: Seq<char>| #[trigger]
            self.subnets.dom().contains(id) ==> self.subnets[id].id == id
        &&& forall|vni: u32| #[trigger]
            self.ip_vrfs.dom().contains(vni) ==> self.ip_vrfs[vni].l3_vni == vni
        &&& forall|id: Seq<char>| #[trigger]
            self.load_balancers.dom().contains(id) ==> self.load_balancers[id].id == id
    }

    /// The tables are well-formed and refer only to what exists. A host has a locator exactly when it
    /// uses SRv6.
    pub open spec fn wf(self) -> bool {
        &&& self.topo.wf()
        &&& forall|id: Seq<char>| #[trigger]
            self.locators.dom().contains(id) <==> self.topo.hosts.dom().contains(id)
                && self.topo.hosts[id].encap == EncapName::Srv6
        &&& forall|id: Seq<char>| #[trigger]
            self.subnets.dom().contains(id) ==> self.subnets[id].id == id
                && self.topo.networks.dom().contains(self.subnets[id].vni)
        &&& forall|vni: u32| #[trigger]
            self.ip_vrfs.dom().contains(vni) ==> self.ip_vrfs[vni].l3_vni == vni && 1 <= vni
                <= MAX_VNI && is_station(self.ip_vrfs[vni].gateway_mac) && self.hosts_all(
                self.ip_vrfs[vni].networks,
            )
        &&& forall|id: Seq<char>| #[trigger]
            self.load_balancers.dom().contains(id) ==> self.load_balancers[id].id == id
                && self.resolves_all(self.load_balancers[id].members)
    }

    /// No prefix has host bits, and every port has an address of its network's block.
    pub open spec fn addressed(self) -> bool {
        &&& forall|v: u32| #[trigger]
            self.topo.networks.dom().contains(v) ==> self.topo.networks[v].subnet.canonical()
        &&& forall|i: int|
            0 <= i < self.topo.ports.len() ==> {
                let p = #[trigger] self.topo.ports[i];
                self.topo.networks[p.vni].subnet.contains(p.ip)
            }
        &&& forall|id: Seq<char>| #[trigger]
            self.subnets.dom().contains(id) ==> match self.subnets[id].cidr {
                SubnetCidr::V4(c) => c.canonical(),
                SubnetCidr::V6(c) => c.canonical(),
            }
    }

    /// All the networks exist.
    pub open spec fn hosts_all(self, vnis: Seq<u32>) -> bool {
        forall|i: int| 0 <= i < vnis.len() ==> self.topo.networks.dom().contains(#[trigger] vnis[i])
    }

    /// Every member names a port.
    pub open spec fn resolves_all(self, members: Seq<LbMemberView>) -> bool {
        forall|i: int|
            0 <= i < members.len() ==> names_port(
                self.topo.ports,
                (#[trigger] members[i]).port_id,
            )
    }
}

/// Some port has the given id.
pub open spec fn names_port(ports: Seq<PortView>, id: Seq<char>) -> bool {
    exists|i: int| 0 <= i < ports.len() && (#[trigger] ports[i]).id == id
}

/// More ports, and ports with another policy, still resolve the members of load balancers.
pub(crate) proof fn balancers_resolve(f: FabricView, g: FabricView)
    requires
        f.wf(),
        g.load_balancers == f.load_balancers,
        f.topo.ports.len() <= g.topo.ports.len(),
        forall|i: int|
            0 <= i < f.topo.ports.len() ==> (#[trigger] g.topo.ports[i]).id == f.topo.ports[i].id,
    ensures
        forall|id: Seq<char>| #[trigger]
            g.load_balancers.dom().contains(id) ==> g.load_balancers[id].id == id
                && g.resolves_all(g.load_balancers[id].members),
{
    assert forall|id: Seq<char>| #[trigger] g.load_balancers.dom().contains(id) implies
        g.resolves_all(
        g.load_balancers[id].members,
    ) && g.load_balancers[id].id == id by {
        let ms = g.load_balancers[id].members;
        assert(f.load_balancers.dom().contains(id));
        assert(f.resolves_all(ms));
        assert forall|i: int| 0 <= i < ms.len() implies names_port(
            g.topo.ports,
            (#[trigger] ms[i]).port_id,
        ) by {
            assert(names_port(f.topo.ports, ms[i].port_id));
            let k = choose|k: int|
                0 <= k < f.topo.ports.len() && (#[trigger] f.topo.ports[k]).id == ms[i].port_id;
            assert(g.topo.ports[k].id == ms[i].port_id);
        }
    }
}

/// A created port has an address of its network's block.
pub(crate) proof fn created_in_block(
    f: FabricView,
    vni: u32,
    host: Seq<char>,
    tap: Seq<char>,
    requested: Option<Ipv4Addr>,
    policy: Option<u32>,
    mac: Option<[u8; 6]>,
)
    requires
        f.wf(),
        f.addressed(),
    ensures
        f.topo.create_port(vni, host, tap, requested, policy, mac).1 matches Ok(p)
            ==> f.topo.networks[vni].subnet.contains(p.ip),
{
    if f.topo.create_port(vni, host, tap, requested, policy, mac).1 is Ok && requested is None {
        let c = f.topo.networks[vni].subnet;
        lowest_free_properties(f.topo.ports, vni, c.base(), 1, c.span());
        lemma2_to64();
        block_contains(
            c,
            Ipv4Addr { bits: lowest_free(f.topo.ports, vni, c.base(), 1, c.span())->0 as u32 },
        );
    }
}

/// Adding a port keeps what every operation keeps.
proof fn port_step_keeps(f: FabricView, p: PortFileView)
    requires
        f.wf(),
        f.addressed(),
    ensures
        port_step(f, p) matches Ok(g) ==> g.wf() && g.addressed(),
{
    reveal(port_step);
    if port_step(f, p) is Ok {
        let g = port_step(f, p)->Ok_0;
        let ip = port_ip(p)->Ok_0;
        let mac = port_mac(p)->Ok_0;
        let policy = if p.security_group is Some {
            None
        } else {
            p.policy
        };
        let step = f.topo.create_port(p.network, p.host, p.tap, ip, policy, mac);
        created_in_block(f, p.network, p.host, p.tap, ip, policy, mac);
        crate::fabric_laws::create_port_keeps_wf(
            f.topo,
            p.network,
            p.host,
            p.tap,
            ip,
            policy,
            mac,
        );
        let id = step.1->Ok_0.id;
        first_index_properties(step.0.ports, with_id(id));
        crate::fabric_laws::set_port_security_group_keeps_wf(step.0, id, p.security_group);
        assert(g.topo.ports.len() == f.topo.ports.len() + 1);
        assert forall|i: int| 0 <= i < f.topo.ports.len() implies (#[trigger] g.topo.ports[i]).id
            == f.topo.ports[i].id by {}
        balancers_resolve(f, g);
    }
}

/// The members that resolving gives name ports.
proof fn members_resolve(ports: Seq<PortView>, ms: Seq<LbMemberFileView>)
    ensures
        match try_steps(Seq::empty(), ms, member_step(ports)) {
            Ok(done) => forall|i: int|
                0 <= i < done.len() ==> names_port(ports, (#[trigger] done[i]).port_id),
            Err(_) => true,
        },
    decreases ms.len(),
{
    if ms.len() > 0 {
        members_resolve(ports, ms.drop_last());
        let k = first_index(ports, at_tap(ms.last().host, ms.last().tap));
        first_index_properties(ports, at_tap(ms.last().host, ms.last().tap));
        if k < ports.len() {
            assert(names_port(ports, ports[k].id)) by {
                assert(ports[k].id == ports[k].id);
            }
        }
    }
}

impl Fabric {
    /// Every table is stored consistently.
    pub open spec fn inv(&self) -> bool {
        &&& self.topo.inv()
        &&& self.locators.inv()
        &&& self.subnets.inv()
        &&& self.ip_vrfs.inv()
        &&& self.load_balancers.inv()
    }

    /// An empty fabric.
    pub fn new() -> (r: Fabric)
        ensures
            r.inv(),
            r@ == FabricView::empty(),
            r@.wf(),
            r@.addressed(),
    {
        let r = Fabric {
            topo: Topology::new(),
            locators: SortedMap::new(),
            subnets: SortedMap::new(),
            ip_vrfs: SortedMap::new(),
            load_balancers: SortedMap::new(),
        };
        assert(r@ =~= FabricView::empty());
        r
    }
}

proof fn map_views_insert<K, V: View>(m: Map<K, V>, k: K, v: V)
    ensures
        map_views(m.insert(k, v)) == map_views(m).insert(k, v@),
{
    assert(map_views(m.insert(k, v)) =~= map_views(m).insert(k, v@));
}

// ---------------------------------------------------------------------------
// Texts of failures
// ---------------------------------------------------------------------------

/// `<kind> <quoted id>: <what> <quoted text>`.
pub open spec fn field_text(
    kind: Seq<char>,
    id: Seq<char>,
    what: Seq<char>,
    text: Seq<char>,
) -> Seq<
    char,
> {
    kind + debug_text(id) + what + debug_text(text)
}

fn field_error(kind: &str, id: &str, what: &str, text: &str) -> (r: Error)
    ensures
        r@ == field_text(kind@, id@, what@, text@),
{
    let mut s = String::from_str(kind);
    s.append(debug_str(id).as_str());
    s.append(what);
    s.append(debug_str(text).as_str());
    Error::new(s)
}

/// Why a host is refused whose encapsulation and locator do not go together.
pub open spec fn locator_mismatch(id: Seq<char>) -> Seq<char> {
    "host "@ + debug_text(id) + ": srv6_locator and srv6 encap go together"@
}

pub(crate) fn locator_mismatch_error(id: &str) -> (r: Error)
    ensures
        r@ == locator_mismatch(id@),
{
    let mut s = String::from_str("host ");
    s.append(debug_str(id).as_str());
    s.append(": srv6_locator and srv6 encap go together");
    Error::new(s)
}

/// Why a network's address block is refused.
pub open spec fn bad_subnet_text(vni: u32, subnet: Seq<char>) -> Seq<char> {
    "network "@ + decimal(vni as nat) + ": invalid subnet "@ + debug_text(subnet) + ": "@
        + cidr_fault(false)
}

/// The greatest number of a segment.
pub const MAX_VNI: u32 = 0xFF_FFFF;

/// Why a routing context's segment is refused.
pub open spec fn vrf_range_text(name: Seq<char>, l3_vni: u32) -> Seq<char> {
    "ip_vrf "@ + name + ": l3_vni "@ + decimal(l3_vni as nat) + " is not between 1 and 16777215"@
}

/// Why a routing context's gateway address is refused.
pub open spec fn vrf_gateway_text(name: Seq<char>, gateway_mac: Seq<char>) -> Seq<char> {
    "ip_vrf "@ + name + ": gateway_mac "@ + debug_text(gateway_mac)
        + " is not the address of one station"@
}

/// Why a routing context's member is refused.
pub open spec fn vrf_member_text(name: Seq<char>, vni: u32) -> Seq<char> {
    "ip_vrf "@ + name + ": unknown network vni "@ + decimal(vni as nat)
}

// ---------------------------------------------------------------------------
// From the file
// ---------------------------------------------------------------------------

/// The locator of a host of the file, or why it has none.
pub open spec fn locator_of(h: HostFileView) -> Result<Option<Locator>, Seq<char>> {
    match h.srv6_locator {
        None => Ok(None),
        Some(text) => {
            let i = find_char(text, '/') as int;
            if i >= text.len() {
                Err(
                    field_text("host "@, h.id, ": srv6_locator "@, text)
                        + " must be written as prefix/len"@,
                )
            } else {
                match (ipv6_of(text.take(i)), unsigned_value(text.skip(i + 1), 10, 255)) {
                    (None, _) => Err(
                        field_text("host "@, h.id, ": invalid srv6_locator prefix in "@, text),
                    ),
                    (Some(_), None) => Err(
                        field_text("host "@, h.id, ": invalid srv6_locator length in "@, text),
                    ),
                    (Some(addr), Some(len)) => Ok(Some(Locator { addr, len: len as u8 })),
                }
            }
        },
    }
}

/// Adding a host of the file. A host has a locator exactly when it uses SRv6.
#[verifier::opaque]
pub open spec fn host_step(f: FabricView, h: HostFileView) -> Result<FabricView, Seq<char>> {
    match (ipv4_of(h.vtep), mac_from(h.underlay_mac), locator_of(h)) {
        (None, _, _) => Err(field_text("host "@, h.id, ": invalid vtep "@, h.vtep)),
        (Some(_), None, _) => Err(
            field_text("host "@, h.id, ": invalid underlay_mac "@, h.underlay_mac) + ": "@
                + mac_fault(),
        ),
        (Some(_), Some(_), Err(e)) => Err(e),
        (Some(vtep_ip), Some(underlay_mac), Ok(locator)) => if (h.encap == EncapName::Srv6) != (
        locator is Some) {
            Err(locator_mismatch(h.id))
        } else {
            Ok(
                FabricView {
                    topo: f.topo.add_host(
                        HostView {
                            id: h.id,
                            vtep_ip,
                            underlay_iface: h.underlay_iface,
                            underlay_mac,
                            encap: h.encap,
                            udp_port: h.udp_port,
                            underlay_mtu: h.underlay_mtu,
                        },
                    ),
                    locators: match locator {
                        Some(l) => f.locators.insert(h.id, l),
                        None => f.locators.remove(h.id),
                    },
                    ..f
                },
            )
        },
    }
}

/// Adding a network of the file.
#[verifier::opaque]
pub open spec fn network_step(f: FabricView, n: NetworkFileView) -> Result<FabricView, Seq<char>> {
    match cidr_v4_of(n.subnet) {
        None => Err(bad_subnet_text(n.vni, n.subnet)),
        Some(subnet) => {
            let step = f.topo.add_network(
                NetworkView {
                    vni: n.vni,
                    name: n.name,
                    subnet,
                    default_action: n.default_action,
                    drop_icmp: n.drop_icmp,
                },
            );
            match step.1 {
                Ok(_) => Ok(FabricView { topo: step.0, ..f }),
                Err(e) => Err(e),
            }
        },
    }
}

/// An address of a subnet of the file, or why it is none.
pub open spec fn subnet_addr(id: Seq<char>, what: Seq<char>, s: Option<Seq<char>>) -> Result<
    Option<IpAddr>,
    Seq<char>,
> {
    match s {
        None => Ok(None),
        Some(t) => match ip_of(t) {
            Some(a) => Ok(Some(a)),
            None => Err(field_text("subnet "@, id, what, t)),
        },
    }
}

/// The pool of a subnet of the file: both ends, or none.
pub open spec fn subnet_pool(s: SubnetFileView) -> Result<Option<AllocRange>, Seq<char>> {
    match (s.pool_start, s.pool_end) {
        (Some(_), Some(_)) => match (
            subnet_addr(s.id, ": invalid pool_start "@, s.pool_start),
            subnet_addr(s.id, ": invalid pool_end "@, s.pool_end),
        ) {
            (Err(e), _) => Err(e),
            (Ok(_), Err(e)) => Err(e),
            (Ok(Some(start)), Ok(Some(end))) => Ok(Some(AllocRange { start, end })),
            _ => Ok(None),
        },
        (None, None) => Ok(None),
        _ => Err(
            "subnet "@ + debug_text(s.id) + ": pool requires both pool_start and pool_end"@,
        ),
    }
}

/// The subnet that a subnet of the file stands for, or why it stands for none.
pub open spec fn subnet_of_file(s: SubnetFileView) -> Result<SubnetView, Seq<char>> {
    match (
        subnet_cidr_of(s.cidr),
        subnet_addr(s.id, ": invalid gateway "@, s.gateway),
        subnet_pool(s),
    ) {
        (None, _, _) => Err(
            field_text("subnet "@, s.id, ": invalid cidr "@, s.cidr) + ": "@ + cidr_fault(
                is_v6_text(s.cidr),
            ),
        ),
        (Some(_), Err(e), _) => Err(e),
        (Some(_), Ok(_), Err(e)) => Err(e),
        (Some(cidr), Ok(gateway), Ok(pool)) => Ok(
            SubnetView { id: s.id, vni: s.vni, cidr, gateway, pool, enable_dhcp: s.enable_dhcp },
        ),
    }
}

/// Adding a subnet of the file. Its network must exist, and its id must be new.
#[verifier::opaque]
pub open spec fn subnet_step(f: FabricView, s: SubnetFileView) -> Result<FabricView, Seq<char>> {
    match subnet_of_file(s) {
        Err(e) => Err(e),
        Ok(subnet) => if !f.topo.networks.dom().contains(s.vni) {
            Err("subnet "@ + debug_text(s.id) + ": unknown network vni "@ + decimal(s.vni as nat))
        } else if f.subnets.dom().contains(s.id) {
            Err("subnet "@ + debug_text(s.id) + " already exists"@)
        } else {
            Ok(FabricView { subnets: f.subnets.insert(s.id, subnet), ..f })
        },
    }
}

/// The security group that a group of the file stands for.
pub open spec fn group_of_file(g: SecurityGroupFileView) -> SecurityGroupView {
    SecurityGroupView {
        name: g.name,
        default_action: g.default_action,
        drop_icmp: g.drop_icmp,
        stateful: g.stateful,
        blocklist: g.blocklist,
        rules: g.rules,
    }
}

/// Adding a security group of the file.
#[verifier::opaque]
pub open spec fn group_step(f: FabricView, g: SecurityGroupFileView) -> Result<
    FabricView,
    Seq<char>,
> {
    let pid = policy_id_of(g.name);
    if g.name.len() == 0 {
        Err("security group name must not be empty"@)
    } else if f.topo.security_groups.dom().contains(g.name) {
        Err("security group "@ + debug_text(g.name) + " already exists"@)
    } else if f.topo.has_group_of(pid) {
        Err(collision_text(g.name, choose|name: Seq<char>| f.topo.is_group_of(pid, name)))
    } else {
        Ok(
            FabricView {
                topo: TopologyView {
                    security_groups: f.topo.security_groups.insert(g.name, group_of_file(g)),
                    ..f.topo
                },
                ..f
            },
        )
    }
}

/// The networks that do not exist.
pub open spec fn missing_network(t: TopologyView) -> spec_fn(u32) -> bool {
    |v: u32| !t.networks.dom().contains(v)
}

/// Adding a routing context of the file. Its networks must exist, its segment must be in range and
/// new, and its gateway must have the address of a station.
#[verifier::opaque]
pub open spec fn vrf_step(f: FabricView, v: IpVrfFileView) -> Result<FabricView, Seq<char>> {
    let i = first_index(v.networks, missing_network(f.topo));
    match mac_from(v.gateway_mac) {
        None => Err(
            "ip_vrf "@ + v.name + ": invalid gateway_mac "@ + debug_text(v.gateway_mac) + ": "@
                + mac_fault(),
        ),
        Some(gateway_mac) => if i < v.networks.len() {
            Err(vrf_member_text(v.name, v.networks[i]))
        } else if !(1 <= v.l3_vni <= MAX_VNI) {
            Err(vrf_range_text(v.name, v.l3_vni))
        } else if !is_station(gateway_mac) {
            Err(vrf_gateway_text(v.name, v.gateway_mac))
        } else if f.ip_vrfs.dom().contains(v.l3_vni) {
            Err("ip_vrf "@ + v.name + ": l3_vni "@ + decimal(v.l3_vni as nat) + " already exists"@)
        } else {
            Ok(
                FabricView {
                    ip_vrfs: f.ip_vrfs.insert(
                        v.l3_vni,
                        IpVrfView {
                            l3_vni: v.l3_vni,
                            name: v.name,
                            gateway_mac,
                            networks: v.networks,
                        },
                    ),
                    ..f
                },
            )
        },
    }
}

/// The address that a port of the file asks for.
pub open spec fn port_ip(p: PortFileView) -> Result<Option<Ipv4Addr>, Seq<char>> {
    match p.ip {
        None => Ok(None),
        Some(s) => match ipv4_of(s) {
            Some(a) => Ok(Some(a)),
            None => Err(
                "port "@ + p.host + "/"@ + p.tap + ": invalid ip "@ + debug_text(s),
            ),
        },
    }
}

/// The MAC address that a port of the file asks for.
pub open spec fn port_mac(p: PortFileView) -> Result<Option<[u8; 6]>, Seq<char>> {
    match p.mac {
        None => Ok(None),
        Some(s) => match mac_from(s) {
            Some(m) => Ok(Some(m)),
            None => Err("mac "@ + debug_text(s) + ": "@ + mac_fault()),
        },
    }
}

/// Adding a port of the file, bound to its security group where it names one.
#[verifier::opaque]
pub open spec fn port_step(f: FabricView, p: PortFileView) -> Result<FabricView, Seq<char>> {
    match (port_ip(p), port_mac(p)) {
        (Err(e), _) => Err(e),
        (Ok(_), Err(e)) => Err(e),
        (Ok(ip), Ok(mac)) => {
            let policy = if p.security_group is Some {
                None
            } else {
                p.policy
            };
            let step = f.topo.create_port(p.network, p.host, p.tap, ip, policy, mac);
            match (step.1, p.security_group) {
                (Err(e), _) => Err(e),
                (Ok(_), None) => Ok(FabricView { topo: step.0, ..f }),
                (Ok(port), Some(g)) => {
                    let bound = step.0.set_port_security_group(port.id, Some(g));
                    match bound.1 {
                        Ok(_) => Ok(FabricView { topo: bound.0, ..f }),
                        Err(e) => Err(e),
                    }
                },
            }
        },
    }
}

/// Resolving a member of a load balancer against the ports.
pub open spec fn member_step(ports: Seq<PortView>) -> spec_fn(
    Seq<LbMemberView>,
    LbMemberFileView,
) -> Result<Seq<LbMemberView>, Seq<char>> {
    |done: Seq<LbMemberView>, m: LbMemberFileView|
        {
            let i = first_index(ports, at_tap(m.host, m.tap));
            if i < ports.len() {
                Ok(done.push(LbMemberView { port_id: ports[i].id, port: m.port }))
            } else {
                Err("member "@ + m.host + "/"@ + m.tap + " names no declared port"@)
            }
        }
}

/// The load balancer that one of the file stands for, or why it stands for none.
pub open spec fn load_balancer_of(ports: Seq<PortView>, lb: LoadBalancerFileView) -> Result<
    LoadBalancerView,
    Seq<char>,
> {
    match (try_steps(Seq::empty(), lb.members, member_step(ports)), ipv4_of(lb.vip)) {
        (Err(e), _) => Err(e),
        (Ok(_), None) => Err("invalid vip "@ + debug_text(lb.vip)),
        (Ok(members), Some(vip)) => Ok(
            LoadBalancerView {
                id: lb.id,
                vni: lb.vni,
                vip,
                port: lb.port,
                proto: lb.proto,
                members,
            },
        ),
    }
}

/// Adding a load balancer of the file. Its id must be new.
#[verifier::opaque]
pub open spec fn lb_step(f: FabricView, lb: LoadBalancerFileView) -> Result<FabricView, Seq<char>> {
    match load_balancer_of(f.topo.ports, lb) {
        Err(e) => Err("load_balancer "@ + lb.id + ": "@ + e),
        Ok(built) => if f.load_balancers.dom().contains(lb.id) {
            Err("load_balancer "@ + lb.id + " already exists"@)
        } else {
            Ok(FabricView { load_balancers: f.load_balancers.insert(lb.id, built), ..f })
        },
    }
}

/// Continues with the next part of a file, unless a part before it failed.
pub open spec fn next_part<A>(
    r: Result<FabricView, Seq<char>>,
    xs: Seq<A>,
    f: spec_fn(FabricView, A) -> Result<FabricView, Seq<char>>,
) -> Result<FabricView, Seq<char>> {
    match r {
        Ok(g) => try_steps(g, xs, f),
        Err(e) => Err(e),
    }
}

/// The fabric that a file declares, or the first reason why it declares none. Each part may refer
/// to those before it: hosts, networks, subnets, security groups, routing contexts, ports, and load
/// balancers.
pub open spec fn built(tf: TopologyFileView) -> Result<FabricView, Seq<char>> {
    let hosts = try_steps(FabricView::empty(), tf.hosts, |f, x| host_step(f, x));
    let networks = next_part(hosts, tf.networks, |f, x| network_step(f, x));
    let subnets = next_part(networks, tf.subnets, |f, x| subnet_step(f, x));
    let groups = next_part(subnets, tf.security_groups, |f, x| group_step(f, x));
    let vrfs = next_part(groups, tf.ip_vrfs, |f, x| vrf_step(f, x));
    let ports = next_part(vrfs, tf.ports, |f, x| port_step(f, x));
    next_part(ports, tf.load_balancers, |f, x| lb_step(f, x))
}

fn parse_locator(h: &HostFile) -> (r: Result<Option<Locator>, Error>)
    ensures
        match r {
            Ok(l) => locator_of(h@) == Ok::<Option<Locator>, Seq<char>>(l),
            Err(e) => locator_of(h@) == Err::<Option<Locator>, Seq<char>>(e@),
        },
{
    match &h.srv6_locator {
        None => Ok(None),
        Some(text) => {
            let v = chars_of(text.as_str());
            assert(v@.skip(0) =~= v@);
            let i: usize = find_from(&v, '/', 0);
            if i == v.len() {
                let mut e = field_error("host ", h.id.as_str(), ": srv6_locator ", text.as_str());
                e.message.append(" must be written as prefix/len");
                return Err(e);
            }
            let addr = sub_chars(&v, 0, i);
            let len = sub_chars(&v, i + 1, v.len());
            assert(addr@ =~= text@.take(i as int));
            assert(len@ =~= text@.skip(i + 1));
            let addr = match parse_ipv6(&addr) {
                Some(a) => a,
                None => {
                    return Err(
                        field_error(
                            "host ",
                            h.id.as_str(),
                            ": invalid srv6_locator prefix in ",
                            text.as_str(),
                        ),
                    );
                },
            };
            match parse_unsigned(&len, 10, 255) {
                Some(n) => Ok(Some(Locator { addr, len: n as u8 })),
                None => Err(
                    field_error(
                        "host ",
                        h.id.as_str(),
                        ": invalid srv6_locator length in ",
                        text.as_str(),
                    ),
                ),
            }
        },
    }
}

impl Fabric {
    fn add_host_file(&mut self, h: &HostFile) -> (r: Result<(), Error>)
        requires
            old(self).inv(),
            old(self)@.wf(),
            old(self)@.addressed(),
        ensures
            final(self).inv(),
            match r {
                Ok(_) => host_step(old(self)@, h@) == Ok::<FabricView, Seq<char>>(final(self)@)
                    && final(self)@.wf() && final(self)@.addressed(),
                Err(e) => host_step(old(self)@, h@) == Err::<FabricView, Seq<char>>(e@),
            },
    {
        proof {
            reveal(host_step);
        }
        let vtep_ip = match Ipv4Addr::parse(h.vtep.as_str()) {
            Some(a) => a,
            None => {
                return Err(
                    field_error("host ", h.id.as_str(), ": invalid vtep ", h.vtep.as_str()),
                );
            },
        };
        let underlay_mac = match parse_mac(h.underlay_mac.as_str()) {
            Some(m) => m,
            None => {
                let e = field_error(
                    "host ",
                    h.id.as_str(),
                    ": invalid underlay_mac ",
                    h.underlay_mac.as_str(),
                );
                return Err(caused(e, mac_fault_text()));
            },
        };
        let locator = match parse_locator(h) {
            Ok(l) => l,
            Err(e) => {
                return Err(e);
            },
        };
        if h.encap.is_srv6() != locator.is_some() {
            return Err(locator_mismatch_error(h.id.as_str()));
        }
        let host = Host {
            id: h.id.clone(),
            vtep_ip,
            underlay_iface: h.underlay_iface.clone(),
            underlay_mac,
            encap: h.encap,
            udp_port: h.udp_port,
            underlay_mtu: h.underlay_mtu,
        };
        proof {
            crate::fabric_laws::add_host_keeps_wf(self.topo@, host@);
        }
        self.topo.add_host(host);
        let key = TextKey { text: h.id.clone() };
        match locator {
            Some(l) => {
                self.locators.insert(key, l);
            },
            None => {
                let was = self.locators.remove(&key);
            },
        }
        Ok(())
    }

    fn add_network_file(&mut self, n: &NetworkFile) -> (r: Result<(), Error>)
        requires
            old(self).inv(),
            old(self)@.wf(),
            old(self)@.addressed(),
        ensures
            final(self).inv(),
            match r {
                Ok(_) => network_step(old(self)@, n@) == Ok::<FabricView, Seq<char>>(final(self)@)
                    && final(self)@.wf() && final(self)@.addressed(),
                Err(e) => network_step(old(self)@, n@) == Err::<FabricView, Seq<char>>(e@),
            },
    {
        proof {
            reveal(network_step);
        }
        let network = match network_of_file(n) {
            Ok(x) => x,
            Err(e) => {
                return Err(e);
            },
        };
        proof {
            cidr_v4_canonical(n.subnet@);
            crate::fabric_laws::add_network_keeps_wf(self.topo@, network@);
        }
        self.topo.add_network(network)
    }

    fn add_subnet_file(&mut self, s: &SubnetFile) -> (r: Result<(), Error>)
        requires
            old(self).inv(),
            old(self)@.wf(),
            old(self)@.addressed(),
        ensures
            final(self).inv(),
            match r {
                Ok(_) => subnet_step(old(self)@, s@) == Ok::<FabricView, Seq<char>>(final(self)@)
                    && final(self)@.wf() && final(self)@.addressed(),
                Err(e) => subnet_step(old(self)@, s@) == Err::<FabricView, Seq<char>>(e@),
            },
    {
        proof {
            reveal(subnet_step);
        }
        let subnet = match subnet_from_file(s) {
            Ok(x) => x,
            Err(e) => {
                return Err(e);
            },
        };
        if self.topo.network(s.vni).is_none() {
            let mut m = String::from_str("subnet ");
            m.append(debug_str(s.id.as_str()).as_str());
            m.append(": unknown network vni ");
            push_decimal(&mut m, s.vni as u64);
            return Err(Error::new(m));
        }
        let key = TextKey { text: s.id.clone() };
        if self.subnets.get(&key).is_some() {
            let mut m = String::from_str("subnet ");
            m.append(debug_str(s.id.as_str()).as_str());
            m.append(" already exists");
            return Err(Error::new(m));
        }
        proof {
            map_views_insert(self.subnets@, key@, subnet);
            cidr_v4_canonical(s.cidr@);
            cidr_v6_canonical(s.cidr@);
        }
        self.subnets.insert(key, subnet);
        Ok(())
    }

    fn add_group_file(&mut self, g: &SecurityGroupFile) -> (r: Result<(), Error>)
        requires
            old(self).inv(),
            old(self)@.wf(),
            old(self)@.addressed(),
        ensures
            final(self).inv(),
            match r {
                Ok(_) => group_step(old(self)@, g@) == Ok::<FabricView, Seq<char>>(final(self)@)
                    && final(self)@.wf() && final(self)@.addressed(),
                Err(e) => group_step(old(self)@, g@) == Err::<FabricView, Seq<char>>(e@),
            },
    {
        proof {
            reveal(group_step);
        }
        let group = SecurityGroup {
            name: g.name.clone(),
            default_action: g.default_action,
            drop_icmp: g.drop_icmp,
            stateful: g.stateful,
            blocklist: clone_strings(&g.blocklist),
            rules: clone_rules(&g.rules),
        };
        let ghost t = self.topo@;
        let ghost gv = group@;
        let r = self.topo.add_security_group(group);
        proof {
            crate::fabric_laws::add_security_group_keeps_wf(t, gv, self.topo@, result_view(r));
            let pid = policy_id_of(gv.name);
            if gv.name.len() > 0 && !t.security_groups.dom().contains(gv.name) && t.has_group_of(
                pid,
            ) {
                let a = choose|name: Seq<char>| #[trigger]
                    t.is_group_of(pid, name) && result_view(r) == Err::<(), Seq<char>>(
                        collision_text(gv.name, name),
                    );
                let b = choose|name: Seq<char>| t.is_group_of(pid, name);
                assert(t.security_groups.dom().contains(a) && t.security_groups.dom().contains(b));
            }
        }
        r
    }

    fn add_vrf_file(&mut self, v: &IpVrfFile) -> (r: Result<(), Error>)
        requires
            old(self).inv(),
            old(self)@.wf(),
            old(self)@.addressed(),
        ensures
            final(self).inv(),
            match r {
                Ok(_) => vrf_step(old(self)@, v@) == Ok::<FabricView, Seq<char>>(final(self)@)
                    && final(self)@.wf() && final(self)@.addressed(),
                Err(e) => vrf_step(old(self)@, v@) == Err::<FabricView, Seq<char>>(e@),
            },
    {
        proof {
            reveal(vrf_step);
        }
        let gateway_mac = match parse_mac(v.gateway_mac.as_str()) {
            Some(m) => m,
            None => {
                let mut m = String::from_str("ip_vrf ");
                m.append(v.name.as_str());
                m.append(": invalid gateway_mac ");
                m.append(debug_str(v.gateway_mac.as_str()).as_str());
                return Err(caused(Error::new(m), mac_fault_text()));
            },
        };
        let ghost f = missing_network(self.topo@);
        let mut networks: Vec<u32> = Vec::new();
        for i in 0..v.networks.len()
            invariant
                self.inv(),
                *self == *old(self),
                f == missing_network(self.topo@),
                networks@ == v.networks@.take(i as int),
                mac_from(v.gateway_mac@) == Some(gateway_mac),
                forall|j: int| 0 <= j < i ==> !f(#[trigger] v.networks@[j]),
        {
            let vni: u32 = v.networks[i];
            if self.topo.network(vni).is_none() {
                proof {
                    reveal(vrf_step);
                    first_index_is(v.networks@, f, i as int);
                }
                let mut m = String::from_str("ip_vrf ");
                m.append(v.name.as_str());
                m.append(": unknown network vni ");
                push_decimal(&mut m, vni as u64);
                return Err(Error::new(m));
            }
            networks.push(vni);
        }
        proof {
            first_index_is(v.networks@, f, v.networks@.len() as int);
            assert(v.networks@.take(v.networks@.len() as int) =~= v.networks@);
        }
        if v.l3_vni == 0 || v.l3_vni > MAX_VNI {
            let mut m = String::from_str("ip_vrf ");
            m.append(v.name.as_str());
            m.append(": l3_vni ");
            push_decimal(&mut m, v.l3_vni as u64);
            m.append(" is not between 1 and 16777215");
            return Err(Error::new(m));
        }
        if !names_station(gateway_mac) {
            let mut m = String::from_str("ip_vrf ");
            m.append(v.name.as_str());
            m.append(": gateway_mac ");
            m.append(debug_str(v.gateway_mac.as_str()).as_str());
            m.append(" is not the address of one station");
            return Err(Error::new(m));
        }
        let key = NumberKey { number: v.l3_vni };
        if self.ip_vrfs.get(&key).is_some() {
            let mut m = String::from_str("ip_vrf ");
            m.append(v.name.as_str());
            m.append(": l3_vni ");
            push_decimal(&mut m, v.l3_vni as u64);
            m.append(" already exists");
            return Err(Error::new(m));
        }
        let vrf = IpVrf { l3_vni: v.l3_vni, name: v.name.clone(), gateway_mac, networks };
        proof {
            map_views_insert(self.ip_vrfs@, key@, vrf);
        }
        self.ip_vrfs.insert(key, vrf);
        Ok(())
    }

    fn add_port_file(&mut self, p: &PortFile) -> (r: Result<(), Error>)
        requires
            old(self).inv(),
            old(self)@.wf(),
            old(self)@.addressed(),
        ensures
            final(self).inv(),
            match r {
                Ok(_) => port_step(old(self)@, p@) == Ok::<FabricView, Seq<char>>(final(self)@)
                    && final(self)@.wf() && final(self)@.addressed(),
                Err(e) => port_step(old(self)@, p@) == Err::<FabricView, Seq<char>>(e@),
            },
    {
        proof {
            reveal(port_step);
            port_step_keeps(self@, p@);
        }
        let ip = match &p.ip {
            Some(s) => match Ipv4Addr::parse(s.as_str()) {
                Some(a) => Some(a),
                None => {
                    let mut m = String::from_str("port ");
                    m.append(p.host.as_str());
                    m.append("/");
                    m.append(p.tap.as_str());
                    m.append(": invalid ip ");
                    m.append(debug_str(s.as_str()).as_str());
                    return Err(Error::new(m));
                },
            },
            None => None,
        };
        let policy: Option<u32> = if p.security_group.is_some() {
            None
        } else {
            p.policy
        };
        let mac: Option<[u8; 6]> = match &p.mac {
            Some(s) => match parse_mac(s.as_str()) {
                Some(m) => Some(m),
                None => {
                    let mut m = String::from_str("mac ");
                    m.append(debug_str(s.as_str()).as_str());
                    return Err(caused(Error::new(m), mac_fault_text()));
                },
            },
            None => None,
        };
        let created = match self.topo.create_port_with_mac(
            p.network,
            p.host.as_str(),
            p.tap.as_str(),
            ip,
            policy,
            mac,
        ) {
            Ok(port) => port,
            Err(e) => {
                return Err(e);
            },
        };
        match &p.security_group {
            Some(g) => {
                match self.topo.set_port_security_group(created.id.as_str(), Some(g.as_str())) {
                    Ok(_) => Ok(()),
                    Err(e) => Err(e),
                }
            },
            None => Ok(()),
        }
    }

    fn add_lb_file(&mut self, lb: &LoadBalancerFile) -> (r: Result<(), Error>)
        requires
            old(self).inv(),
            old(self)@.wf(),
            old(self)@.addressed(),
        ensures
            final(self).inv(),
            match r {
                Ok(_) => lb_step(old(self)@, lb@) == Ok::<FabricView, Seq<char>>(final(self)@)
                    && final(self)@.wf() && final(self)@.addressed(),
                Err(e) => lb_step(old(self)@, lb@) == Err::<FabricView, Seq<char>>(e@),
            },
    {
        proof {
            reveal(lb_step);
        }
        let built = match build_load_balancer(&self.topo, lb) {
            Ok(b) => b,
            Err(e) => {
                let mut m = String::from_str("load_balancer ");
                m.append(lb.id.as_str());
                m.append(": ");
                m.append(e.message.as_str());
                return Err(Error::new(m));
            },
        };
        let key = TextKey { text: lb.id.clone() };
        if self.load_balancers.get(&key).is_some() {
            let mut m = String::from_str("load_balancer ");
            m.append(lb.id.as_str());
            m.append(" already exists");
            return Err(Error::new(m));
        }
        proof {
            map_views_insert(self.load_balancers@, key@, built);
            members_resolve(self.topo@.ports, lb@.members);
        }
        self.load_balancers.insert(key, built);
        Ok(())
    }
}

fn network_of_file(n: &NetworkFile) -> (r: Result<Network, Error>)
    ensures
        match r {
            Ok(x) => cidr_v4_of(n.subnet@) == Some(x.subnet) && x.subnet.valid() && x@ == (
            NetworkView {
                vni: n.vni,
                name: n.name@,
                subnet: x.subnet,
                default_action: n.default_action,
                drop_icmp: n.drop_icmp,
            }),
            Err(e) => cidr_v4_of(n.subnet@) is None && e@ == bad_subnet_text(n.vni, n.subnet@),
        },
{
    match parse_cidr_v4(n.subnet.as_str()) {
        Some(subnet) => Ok(
            Network {
                vni: n.vni,
                name: n.name.clone(),
                subnet,
                default_action: n.default_action,
                drop_icmp: n.drop_icmp,
            },
        ),
        None => Err(bad_subnet(n.vni, n.subnet.as_str())),
    }
}

fn bad_subnet(vni: u32, subnet: &str) -> (r: Error)
    ensures
        r@ == bad_subnet_text(vni, subnet@),
{
    let mut m = String::from_str("network ");
    push_decimal(&mut m, vni as u64);
    m.append(": invalid subnet ");
    m.append(debug_str(subnet).as_str());
    caused(Error::new(m), cidr_fault_text(false))
}

fn parse_subnet_addr(id: &str, what: &str, s: &Option<String>) -> (r: Result<Option<IpAddr>, Error>)
    ensures
        match r {
            Ok(a) => subnet_addr(id@, what@, opt_view(*s)) == Ok::<Option<IpAddr>, Seq<char>>(a),
            Err(e) => subnet_addr(id@, what@, opt_view(*s)) == Err::<Option<IpAddr>, Seq<char>>(e@),
        },
{
    match s {
        Some(t) => match IpAddr::parse(t.as_str()) {
            Some(a) => Ok(Some(a)),
            None => Err(field_error("subnet ", id, what, t.as_str())),
        },
        None => Ok(None),
    }
}

/// Builds a subnet from its file form.
pub fn subnet_from_file(s: &SubnetFile) -> (r: Result<Subnet, Error>)
    ensures
        match r {
            Ok(n) => subnet_of_file(s@) == Ok::<SubnetView, Seq<char>>(n@),
            Err(e) => subnet_of_file(s@) == Err::<SubnetView, Seq<char>>(e@),
        },
{
    let cidr = match parse_subnet_cidr(s.cidr.as_str()) {
        Some(c) => c,
        None => {
            let e = field_error("subnet ", s.id.as_str(), ": invalid cidr ", s.cidr.as_str());
            return Err(caused(e, cidr_fault_text(looks_v6(s.cidr.as_str()))));
        },
    };
    let gateway = match parse_subnet_addr(s.id.as_str(), ": invalid gateway ", &s.gateway) {
        Ok(g) => g,
        Err(e) => {
            return Err(e);
        },
    };
    let pool = match (&s.pool_start, &s.pool_end) {
        (Some(_), Some(_)) => {
            let start = match parse_subnet_addr(
                s.id.as_str(),
                ": invalid pool_start ",
                &s.pool_start,
            ) {
                Ok(a) => a,
                Err(e) => {
                    return Err(e);
                },
            };
            let end = match parse_subnet_addr(s.id.as_str(), ": invalid pool_end ", &s.pool_end) {
                Ok(a) => a,
                Err(e) => {
                    return Err(e);
                },
            };
            match (start, end) {
                (Some(start), Some(end)) => Some(AllocRange { start, end }),
                _ => None,
            }
        },
        (None, None) => None,
        _ => {
            let mut m = String::from_str("subnet ");
            m.append(debug_str(s.id.as_str()).as_str());
            m.append(": pool requires both pool_start and pool_end");
            return Err(Error::new(m));
        },
    };
    Ok(
        Subnet {
            id: s.id.clone(),
            vni: s.vni,
            cidr,
            gateway,
            pool,
            enable_dhcp: s.enable_dhcp,
        },
    )
}

fn first_port_at_tap(ports: &Vec<Port>, host: &str, tap: &str) -> (r: usize)
    ensures
        r == first_index(views(ports@), at_tap(host@, tap@)),
        r <= ports@.len(),
{
    let ghost f = at_tap(host@, tap@);
    let mut i: usize = 0;
    while i < ports.len() && !(same(ports[i].host.as_str(), host) && same(
        ports[i].tap.as_str(),
        tap,
    ))
        invariant
            f == at_tap(host@, tap@),
            i <= ports@.len(),
            forall|j: int| 0 <= j < i ==> !f(#[trigger] views(ports@)[j]),
        decreases ports@.len() - i,
    {
        i += 1;
    }
    proof {
        first_index_is(views(ports@), f, i as int);
    }
    i
}

/// Resolves a load balancer of the file against the ports already built.
pub fn build_load_balancer(topo: &Topology, lb: &LoadBalancerFile) -> (r: Result<
    LoadBalancer,
    Error,
>)
    ensures
        match r {
            Ok(b) => load_balancer_of(topo@.ports, lb@) == Ok::<LoadBalancerView, Seq<char>>(b@),
            Err(e) => load_balancer_of(topo@.ports, lb@) == Err::<LoadBalancerView, Seq<char>>(e@),
        },
{
    let ports = topo.ports();
    let ghost pv = topo@.ports;
    let ghost ms = views(lb.members@);
    let ghost f = member_step(pv);
    let mut members: Vec<LbMember> = Vec::new();
    assert(ms.take(0) =~= Seq::empty());
    assert(views(members@) =~= Seq::empty());
    for i in 0..lb.members.len()
        invariant
            views(ports@) == pv,
            pv == topo@.ports,
            ms == views(lb.members@),
            f == member_step(pv),
            try_steps(Seq::empty(), ms.take(i as int), f) == Ok::<Seq<LbMemberView>, Seq<char>>(
                views(members@),
            ),
    {
        let m = &lb.members[i];
        assert(ms[i as int] == m@);
        proof {
            try_steps_next(Seq::empty(), ms, f, i as int);
        }
        let k: usize = first_port_at_tap(ports, m.host.as_str(), m.tap.as_str());
        if k == ports.len() {
            let mut s = String::from_str("member ");
            s.append(m.host.as_str());
            s.append("/");
            s.append(m.tap.as_str());
            s.append(" names no declared port");
            proof {
                try_steps_failed(Seq::empty(), ms, f, i + 1);
            }
            return Err(Error::new(s));
        }
        let ghost before = views(members@);
        let member = LbMember { port_id: ports[k].id.clone(), port: m.port };
        assert(pv[k as int] == ports@[k as int]@);
        members.push(member);
        assert(views(members@) =~= before.push(member@));
    }
    assert(ms.take(lb.members@.len() as int) =~= ms);
    match Ipv4Addr::parse(lb.vip.as_str()) {
        Some(vip) => Ok(
            LoadBalancer {
                id: lb.id.clone(),
                vni: lb.vni,
                vip,
                port: lb.port,
                proto: lb.proto,
                members,
            },
        ),
        None => {
            let mut s = String::from_str("invalid vip ");
            s.append(debug_str(lb.vip.as_str()).as_str());
            Err(Error::new(s))
        },
    }
}

fn build_hosts(f: &mut Fabric, xs: &Vec<HostFile>) -> (r: Result<(), Error>)
    requires
        old(f).inv(),
        old(f)@.wf(),
        old(f)@.addressed(),
    ensures
        final(f).inv(),
        match r {
            Ok(_) => try_steps(old(f)@, views(xs@), |f, x| host_step(f, x)) == Ok::<
                FabricView,
                Seq<char>,
            >(final(f)@) && final(f)@.wf() && final(f)@.addressed(),
            Err(e) => try_steps(old(f)@, views(xs@), |f, x| host_step(f, x)) == Err::<
                FabricView,
                Seq<char>,
            >(e@),
        },
{
    let ghost start = f@;
    let ghost vs = views(xs@);
    let ghost g = |f: FabricView, x: HostFileView| host_step(f, x);
    assert(vs.take(0) =~= Seq::empty());
    for i in 0..xs.len()
        invariant
            f.inv(),
            f@.wf(),
            f@.addressed(),
            start == old(f)@,
            vs == views(xs@),
            g == (|f: FabricView, x: HostFileView| host_step(f, x)),
            try_steps(start, vs.take(i as int), g) == Ok::<FabricView, Seq<char>>(f@),
    {
        proof {
            try_steps_next(start, vs, g, i as int);
        }
        match f.add_host_file(&xs[i]) {
            Ok(_) => {},
            Err(e) => {
                proof {
                    try_steps_failed(start, vs, g, i + 1);
                }
                return Err(e);
            },
        }
    }
    assert(vs.take(xs@.len() as int) =~= vs);
    Ok(())
}

fn build_networks(f: &mut Fabric, xs: &Vec<NetworkFile>) -> (r: Result<(), Error>)
    requires
        old(f).inv(),
        old(f)@.wf(),
        old(f)@.addressed(),
    ensures
        final(f).inv(),
        match r {
            Ok(_) => try_steps(old(f)@, views(xs@), |f, x| network_step(f, x)) == Ok::<
                FabricView,
                Seq<char>,
            >(final(f)@) && final(f)@.wf() && final(f)@.addressed(),
            Err(e) => try_steps(old(f)@, views(xs@), |f, x| network_step(f, x)) == Err::<
                FabricView,
                Seq<char>,
            >(e@),
        },
{
    let ghost start = f@;
    let ghost vs = views(xs@);
    let ghost g = |f: FabricView, x: NetworkFileView| network_step(f, x);
    assert(vs.take(0) =~= Seq::empty());
    for i in 0..xs.len()
        invariant
            f.inv(),
            f@.wf(),
            f@.addressed(),
            start == old(f)@,
            vs == views(xs@),
            g == (|f: FabricView, x: NetworkFileView| network_step(f, x)),
            try_steps(start, vs.take(i as int), g) == Ok::<FabricView, Seq<char>>(f@),
    {
        proof {
            try_steps_next(start, vs, g, i as int);
        }
        match f.add_network_file(&xs[i]) {
            Ok(_) => {},
            Err(e) => {
                proof {
                    try_steps_failed(start, vs, g, i + 1);
                }
                return Err(e);
            },
        }
    }
    assert(vs.take(xs@.len() as int) =~= vs);
    Ok(())
}

fn build_subnets(f: &mut Fabric, xs: &Vec<SubnetFile>) -> (r: Result<(), Error>)
    requires
        old(f).inv(),
        old(f)@.wf(),
        old(f)@.addressed(),
    ensures
        final(f).inv(),
        match r {
            Ok(_) => try_steps(old(f)@, views(xs@), |f, x| subnet_step(f, x)) == Ok::<
                FabricView,
                Seq<char>,
            >(final(f)@) && final(f)@.wf() && final(f)@.addressed(),
            Err(e) => try_steps(old(f)@, views(xs@), |f, x| subnet_step(f, x)) == Err::<
                FabricView,
                Seq<char>,
            >(e@),
        },
{
    let ghost start = f@;
    let ghost vs = views(xs@);
    let ghost g = |f: FabricView, x: SubnetFileView| subnet_step(f, x);
    assert(vs.take(0) =~= Seq::empty());
    for i in 0..xs.len()
        invariant
            f.inv(),
            f@.wf(),
            f@.addressed(),
            start == old(f)@,
            vs == views(xs@),
            g == (|f: FabricView, x: SubnetFileView| subnet_step(f, x)),
            try_steps(start, vs.take(i as int), g) == Ok::<FabricView, Seq<char>>(f@),
    {
        proof {
            try_steps_next(start, vs, g, i as int);
        }
        match f.add_subnet_file(&xs[i]) {
            Ok(_) => {},
            Err(e) => {
                proof {
                    try_steps_failed(start, vs, g, i + 1);
                }
                return Err(e);
            },
        }
    }
    assert(vs.take(xs@.len() as int) =~= vs);
    Ok(())
}

fn build_groups(f: &mut Fabric, xs: &Vec<SecurityGroupFile>) -> (r: Result<(), Error>)
    requires
        old(f).inv(),
        old(f)@.wf(),
        old(f)@.addressed(),
    ensures
        final(f).inv(),
        match r {
            Ok(_) => try_steps(old(f)@, views(xs@), |f, x| group_step(f, x)) == Ok::<
                FabricView,
                Seq<char>,
            >(final(f)@) && final(f)@.wf() && final(f)@.addressed(),
            Err(e) => try_steps(old(f)@, views(xs@), |f, x| group_step(f, x)) == Err::<
                FabricView,
                Seq<char>,
            >(e@),
        },
{
    let ghost start = f@;
    let ghost vs = views(xs@);
    let ghost g = |f: FabricView, x: SecurityGroupFileView| group_step(f, x);
    assert(vs.take(0) =~= Seq::empty());
    for i in 0..xs.len()
        invariant
            f.inv(),
            f@.wf(),
            f@.addressed(),
            start == old(f)@,
            vs == views(xs@),
            g == (|f: FabricView, x: SecurityGroupFileView| group_step(f, x)),
            try_steps(start, vs.take(i as int), g) == Ok::<FabricView, Seq<char>>(f@),
    {
        proof {
            try_steps_next(start, vs, g, i as int);
        }
        match f.add_group_file(&xs[i]) {
            Ok(_) => {},
            Err(e) => {
                proof {
                    try_steps_failed(start, vs, g, i + 1);
                }
                return Err(e);
            },
        }
    }
    assert(vs.take(xs@.len() as int) =~= vs);
    Ok(())
}

fn build_vrfs(f: &mut Fabric, xs: &Vec<IpVrfFile>) -> (r: Result<(), Error>)
    requires
        old(f).inv(),
        old(f)@.wf(),
        old(f)@.addressed(),
    ensures
        final(f).inv(),
        match r {
            Ok(_) => try_steps(old(f)@, views(xs@), |f, x| vrf_step(f, x)) == Ok::<
                FabricView,
                Seq<char>,
            >(final(f)@) && final(f)@.wf() && final(f)@.addressed(),
            Err(e) => try_steps(old(f)@, views(xs@), |f, x| vrf_step(f, x)) == Err::<
                FabricView,
                Seq<char>,
            >(e@),
        },
{
    let ghost start = f@;
    let ghost vs = views(xs@);
    let ghost g = |f: FabricView, x: IpVrfFileView| vrf_step(f, x);
    assert(vs.take(0) =~= Seq::empty());
    for i in 0..xs.len()
        invariant
            f.inv(),
            f@.wf(),
            f@.addressed(),
            start == old(f)@,
            vs == views(xs@),
            g == (|f: FabricView, x: IpVrfFileView| vrf_step(f, x)),
            try_steps(start, vs.take(i as int), g) == Ok::<FabricView, Seq<char>>(f@),
    {
        proof {
            try_steps_next(start, vs, g, i as int);
        }
        match f.add_vrf_file(&xs[i]) {
            Ok(_) => {},
            Err(e) => {
                proof {
                    try_steps_failed(start, vs, g, i + 1);
                }
                return Err(e);
            },
        }
    }
    assert(vs.take(xs@.len() as int) =~= vs);
    Ok(())
}

fn build_ports(f: &mut Fabric, xs: &Vec<PortFile>) -> (r: Result<(), Error>)
    requires
        old(f).inv(),
        old(f)@.wf(),
        old(f)@.addressed(),
    ensures
        final(f).inv(),
        match r {
            Ok(_) => try_steps(old(f)@, views(xs@), |f, x| port_step(f, x)) == Ok::<
                FabricView,
                Seq<char>,
            >(final(f)@) && final(f)@.wf() && final(f)@.addressed(),
            Err(e) => try_steps(old(f)@, views(xs@), |f, x| port_step(f, x)) == Err::<
                FabricView,
                Seq<char>,
            >(e@),
        },
{
    let ghost start = f@;
    let ghost vs = views(xs@);
    let ghost g = |f: FabricView, x: PortFileView| port_step(f, x);
    assert(vs.take(0) =~= Seq::empty());
    for i in 0..xs.len()
        invariant
            f.inv(),
            f@.wf(),
            f@.addressed(),
            start == old(f)@,
            vs == views(xs@),
            g == (|f: FabricView, x: PortFileView| port_step(f, x)),
            try_steps(start, vs.take(i as int), g) == Ok::<FabricView, Seq<char>>(f@),
    {
        proof {
            try_steps_next(start, vs, g, i as int);
        }
        match f.add_port_file(&xs[i]) {
            Ok(_) => {},
            Err(e) => {
                proof {
                    try_steps_failed(start, vs, g, i + 1);
                }
                return Err(e);
            },
        }
    }
    assert(vs.take(xs@.len() as int) =~= vs);
    Ok(())
}

fn build_load_balancers(f: &mut Fabric, xs: &Vec<LoadBalancerFile>) -> (r: Result<(), Error>)
    requires
        old(f).inv(),
        old(f)@.wf(),
        old(f)@.addressed(),
    ensures
        final(f).inv(),
        match r {
            Ok(_) => try_steps(old(f)@, views(xs@), |f, x| lb_step(f, x)) == Ok::<
                FabricView,
                Seq<char>,
            >(final(f)@) && final(f)@.wf() && final(f)@.addressed(),
            Err(e) => try_steps(old(f)@, views(xs@), |f, x| lb_step(f, x)) == Err::<
                FabricView,
                Seq<char>,
            >(e@),
        },
{
    let ghost start = f@;
    let ghost vs = views(xs@);
    let ghost g = |f: FabricView, x: LoadBalancerFileView| lb_step(f, x);
    assert(vs.take(0) =~= Seq::empty());
    for i in 0..xs.len()
        invariant
            f.inv(),
            f@.wf(),
            f@.addressed(),
            start == old(f)@,
            vs == views(xs@),
            g == (|f: FabricView, x: LoadBalancerFileView| lb_step(f, x)),
            try_steps(start, vs.take(i as int), g) == Ok::<FabricView, Seq<char>>(f@),
    {
        proof {
            try_steps_next(start, vs, g, i as int);
        }
        match f.add_lb_file(&xs[i]) {
            Ok(_) => {},
            Err(e) => {
                proof {
                    try_steps_failed(start, vs, g, i + 1);
                }
                return Err(e);
            },
        }
    }
    assert(vs.take(xs@.len() as int) =~= vs);
    Ok(())
}

/// Builds the fabric that a file declares.
pub fn build(tf: &TopologyFile) -> (r: Result<Fabric, Error>)
    ensures
        match r {
            Ok(f) => f.inv() && f@.wf() && f@.addressed()
                && built(tf@) == Ok::<FabricView, Seq<char>>(f@),
            Err(e) => built(tf@) == Err::<FabricView, Seq<char>>(e@),
        },
{
    let mut f = Fabric::new();
    match build_hosts(&mut f, &tf.hosts) {
        Ok(_) => {},
        Err(e) => {
            return Err(e);
        },
    }
    match build_networks(&mut f, &tf.networks) {
        Ok(_) => {},
        Err(e) => {
            return Err(e);
        },
    }
    match build_subnets(&mut f, &tf.subnets) {
        Ok(_) => {},
        Err(e) => {
            return Err(e);
        },
    }
    match build_groups(&mut f, &tf.security_groups) {
        Ok(_) => {},
        Err(e) => {
            return Err(e);
        },
    }
    match build_vrfs(&mut f, &tf.ip_vrfs) {
        Ok(_) => {},
        Err(e) => {
            return Err(e);
        },
    }
    match build_ports(&mut f, &tf.ports) {
        Ok(_) => {},
        Err(e) => {
            return Err(e);
        },
    }
    match build_load_balancers(&mut f, &tf.load_balancers) {
        Ok(_) => {},
        Err(e) => {
            return Err(e);
        },
    }
    Ok(f)
}

/// What is seen of the records of this module is all that they hold, field by field.
pub proof fn topology_records_are_seen_whole(
    host_file: HostFile,
    network_file: NetworkFile,
    subnet_file: SubnetFile,
    security_group_file: SecurityGroupFile,
    ip_vrf_file: IpVrfFile,
    lb_member_file: LbMemberFile,
    load_balancer_file: LoadBalancerFile,
    port_file: PortFile,
    topology_file: TopologyFile,
    ip_vrf: IpVrf,
    lb_member: LbMember,
    load_balancer: LoadBalancer,
    fabric: Fabric,
)
    ensures
        host_file@.id == host_file.id@,
        host_file@.vtep == host_file.vtep@,
        host_file@.underlay_iface == host_file.underlay_iface@,
        host_file@.underlay_mac == host_file.underlay_mac@,
        host_file@.encap == host_file.encap,
        host_file@.udp_port == host_file.udp_port,
        host_file@.underlay_mtu == host_file.underlay_mtu,
        host_file@.srv6_locator == opt_view(host_file.srv6_locator),
        network_file@.vni == network_file.vni,
        network_file@.name == network_file.name@,
        network_file@.subnet == network_file.subnet@,
        network_file@.default_action == network_file.default_action,
        network_file@.drop_icmp == network_file.drop_icmp,
        subnet_file@.id == subnet_file.id@,
        subnet_file@.vni == subnet_file.vni,
        subnet_file@.cidr == subnet_file.cidr@,
        subnet_file@.gateway == opt_view(subnet_file.gateway),
        subnet_file@.pool_start == opt_view(subnet_file.pool_start),
        subnet_file@.pool_end == opt_view(subnet_file.pool_end),
        subnet_file@.enable_dhcp == subnet_file.enable_dhcp,
        security_group_file@.name == security_group_file.name@,
        security_group_file@.default_action == security_group_file.default_action,
        security_group_file@.drop_icmp == security_group_file.drop_icmp,
        security_group_file@.stateful == security_group_file.stateful,
        security_group_file@.blocklist == views(security_group_file.blocklist@),
        security_group_file@.rules == views(security_group_file.rules@),
        ip_vrf_file@.l3_vni == ip_vrf_file.l3_vni,
        ip_vrf_file@.name == ip_vrf_file.name@,
        ip_vrf_file@.gateway_mac == ip_vrf_file.gateway_mac@,
        ip_vrf_file@.networks == ip_vrf_file.networks@,
        lb_member_file@.host == lb_member_file.host@,
        lb_member_file@.tap == lb_member_file.tap@,
        lb_member_file@.port == lb_member_file.port,
        load_balancer_file@.id == load_balancer_file.id@,
        load_balancer_file@.vni == load_balancer_file.vni,
        load_balancer_file@.vip == load_balancer_file.vip@,
        load_balancer_file@.port == load_balancer_file.port,
        load_balancer_file@.proto == load_balancer_file.proto,
        load_balancer_file@.members == views(load_balancer_file.members@),
        port_file@.network == port_file.network,
        port_file@.host == port_file.host@,
        port_file@.tap == port_file.tap@,
        port_file@.ip == opt_view(port_file.ip),
        port_file@.policy == port_file.policy,
        port_file@.security_group == opt_view(port_file.security_group),
        port_file@.mac == opt_view(port_file.mac),
        topology_file@.hosts == views(topology_file.hosts@),
        topology_file@.networks == views(topology_file.networks@),
        topology_file@.subnets == views(topology_file.subnets@),
        topology_file@.security_groups == views(topology_file.security_groups@),
        topology_file@.ip_vrfs == views(topology_file.ip_vrfs@),
        topology_file@.load_balancers == views(topology_file.load_balancers@),
        topology_file@.ports == views(topology_file.ports@),
        ip_vrf@.l3_vni == ip_vrf.l3_vni,
        ip_vrf@.name == ip_vrf.name@,
        ip_vrf@.gateway_mac == ip_vrf.gateway_mac,
        ip_vrf@.networks == ip_vrf.networks@,
        lb_member@.port_id == lb_member.port_id@,
        lb_member@.port == lb_member.port,
        load_balancer@.id == load_balancer.id@,
        load_balancer@.vni == load_balancer.vni,
        load_balancer@.vip == load_balancer.vip,
        load_balancer@.port == load_balancer.port,
        load_balancer@.proto == load_balancer.proto,
        load_balancer@.members == views(load_balancer.members@),
        fabric@.topo == fabric.topo@,
        fabric@.locators == fabric.locators@,
        fabric@.subnets == map_views(fabric.subnets@),
        fabric@.ip_vrfs == map_views(fabric.ip_vrfs@),
        fabric@.load_balancers == map_views(fabric.load_balancers@),
{
}

/// The number of a segment has 24 bits.
pub proof fn segment_numbers()
    ensures
        MAX_VNI == 256 * 256 * 256 - 1,
{
}

} // verus!
