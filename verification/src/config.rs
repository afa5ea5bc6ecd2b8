//! The configuration of one host: what the control plane derives and an agent applies.

use vstd::prelude::*;

use crate::text::{clone_opt, opt_view, views};

verus! {

/// A firewall verdict, as configuration names it.
#[derive(Clone, Copy, Debug, PartialEq, Eq, Structural)]
pub enum ActionName {
    Pass,
    Drop,
    Reject,
}

/// A protocol that a port rule names.
#[derive(Clone, Copy, Debug, PartialEq, Eq, Structural)]
pub enum ProtoName {
    Tcp,
    Udp,
    Icmp,
}

/// The wire format of a host's overlay.
#[derive(Clone, Copy, Debug, PartialEq, Eq, Structural)]
pub enum EncapName {
    Vxlan,
    Geneve,
    Srv6,
}

impl Default for ActionName {
    fn default() -> (r: Self)
        ensures
            r == ActionName::Pass,
    {
        ActionName::Pass
    }
}

impl Default for EncapName {
    fn default() -> (r: Self)
        ensures
            r == EncapName::Vxlan,
    {
        EncapName::Vxlan
    }
}

impl EncapName {
    /// Whether the overlay is SRv6 rather than VXLAN or Geneve.
    pub fn is_srv6(&self) -> (r: bool)
        ensures
            r == (*self == EncapName::Srv6),
    {
        match self {
            EncapName::Srv6 => true,
            _ => false,
        }
    }
}

/// A rule for one protocol and destination port.
#[derive(Debug, PartialEq, Eq)]
pub struct PortRule {
    pub proto: ProtoName,
    pub port: u16,
    pub action: ActionName,
    /// Log the traffic that the rule matches.
    pub log: bool,
    /// Restrict the rule to a source prefix.
    pub src: Option<String>,
}

/// What a [`PortRule`] holds.
#[verifier::ext_equal]
pub struct PortRuleView {
    pub proto: ProtoName,
    pub port: u16,
    pub action: ActionName,
    pub log: bool,
    pub src: Option<Seq<char>>,
}

impl View for PortRule {
    type V = PortRuleView;

    open spec fn view(&self) -> PortRuleView {
        PortRuleView {
            proto: self.proto,
            port: self.port,
            action: self.action,
            log: self.log,
            src: opt_view(self.src),
        }
    }
}

impl Clone for PortRule {
    fn clone(&self) -> (r: Self)
        ensures
            r@ == self@,
    {
        PortRule {
            proto: self.proto,
            port: self.port,
            action: self.action,
            log: self.log,
            src: clone_opt(&self.src),
        }
    }
}

/// A firewall policy: a rule set under a numeric id.
#[derive(Debug, PartialEq, Eq)]
pub struct PolicyFile {
    pub id: u32,
    pub name: Option<String>,
    pub default_action: ActionName,
    pub drop_icmp: bool,
    pub log: bool,
    pub stateful: bool,
    pub blocklist: Vec<String>,
    pub port_rules: Vec<PortRule>,
}

/// What a [`PolicyFile`] holds.
#[verifier::ext_equal]
pub struct PolicyFileView {
    pub id: u32,
    pub name: Option<Seq<char>>,
    pub default_action: ActionName,
    pub drop_icmp: bool,
    pub log: bool,
    pub stateful: bool,
    pub blocklist: Seq<Seq<char>>,
    pub port_rules: Seq<PortRuleView>,
}

impl View for PolicyFile {
    type V = PolicyFileView;

    open spec fn view(&self) -> PolicyFileView {
        PolicyFileView {
            id: self.id,
            name: opt_view(self.name),
            default_action: self.default_action,
            drop_icmp: self.drop_icmp,
            log: self.log,
            stateful: self.stateful,
            blocklist: views(self.blocklist@),
            port_rules: views(self.port_rules@),
        }
    }
}

/// The VXLAN or Geneve endpoint of a host.
#[derive(Debug, PartialEq, Eq)]
pub struct OverlayCfg {
    pub local_vtep: String,
    pub underlay_iface: String,
    pub encap: EncapName,
    pub udp_port: Option<u16>,
    pub local_mac: Option<String>,
    pub underlay_mtu: Option<u16>,
}

/// What a [`OverlayCfg`] holds.
#[verifier::ext_equal]
pub struct OverlayCfgView {
    pub local_vtep: Seq<char>,
    pub underlay_iface: Seq<char>,
    pub encap: EncapName,
    pub udp_port: Option<u16>,
    pub local_mac: Option<Seq<char>>,
    pub underlay_mtu: Option<u16>,
}

impl View for OverlayCfg {
    type V = OverlayCfgView;

    open spec fn view(&self) -> OverlayCfgView {
        OverlayCfgView {
            local_vtep: self.local_vtep@,
            underlay_iface: self.underlay_iface@,
            encap: self.encap,
            udp_port: self.udp_port,
            local_mac: opt_view(self.local_mac),
            underlay_mtu: self.underlay_mtu,
        }
    }
}

/// The SRv6 endpoint of a host.
#[derive(Debug, PartialEq, Eq)]
pub struct Srv6Cfg {
    /// The outer source address of the frames the host sends.
    pub local_src: String,
    /// The outer source addresses the host decapsulates from.
    pub peers: Vec<String>,
}

/// What a [`Srv6Cfg`] holds.
#[verifier::ext_equal]
pub struct Srv6CfgView {
    pub local_src: Seq<char>,
    pub peers: Seq<Seq<char>>,
}

impl View for Srv6Cfg {
    type V = Srv6CfgView;

    open spec fn view(&self) -> Srv6CfgView {
        Srv6CfgView {
            local_src: self.local_src@,
            peers: views(self.peers@),
        }
    }
}

/// The binding of an interface to a policy and a segment.
#[derive(Debug, PartialEq, Eq)]
pub struct InterfaceFile {
    pub name: String,
    pub policy: u32,
    pub vni: Option<u32>,
    pub masquerade: bool,
}

/// What a [`InterfaceFile`] holds.
#[verifier::ext_equal]
pub struct InterfaceFileView {
    pub name: Seq<char>,
    pub policy: u32,
    pub vni: Option<u32>,
    pub masquerade: bool,
}

impl View for InterfaceFile {
    type V = InterfaceFileView;

    open spec fn view(&self) -> InterfaceFileView {
        InterfaceFileView {
            name: self.name@,
            policy: self.policy,
            vni: self.vni,
            masquerade: self.masquerade,
        }
    }
}

/// A tunnel toward a remote inner prefix.
#[derive(Debug, PartialEq, Eq)]
pub struct TunnelCfg {
    pub vni: u32,
    pub inner_dst: String,
    pub remote_vtep: String,
    pub via_mac: String,
    pub out_iface: String,
}

/// What a [`TunnelCfg`] holds.
#[verifier::ext_equal]
pub struct TunnelCfgView {
    pub vni: u32,
    pub inner_dst: Seq<char>,
    pub remote_vtep: Seq<char>,
    pub via_mac: Seq<char>,
    pub out_iface: Seq<char>,
}

impl View for TunnelCfg {
    type V = TunnelCfgView;

    open spec fn view(&self) -> TunnelCfgView {
        TunnelCfgView {
            vni: self.vni,
            inner_dst: self.inner_dst@,
            remote_vtep: self.remote_vtep@,
            via_mac: self.via_mac@,
            out_iface: self.out_iface@,
        }
    }
}

/// An address that the host answers ARP for.
#[derive(Debug, PartialEq, Eq)]
pub struct NeighborCfg {
    pub vni: u32,
    pub ip: String,
    pub mac: String,
}

/// What a [`NeighborCfg`] holds.
#[verifier::ext_equal]
pub struct NeighborCfgView {
    pub vni: u32,
    pub ip: Seq<char>,
    pub mac: Seq<char>,
}

impl View for NeighborCfg {
    type V = NeighborCfgView;

    open spec fn view(&self) -> NeighborCfgView {
        NeighborCfgView {
            vni: self.vni,
            ip: self.ip@,
            mac: self.mac@,
        }
    }
}

/// An IPv6 address that the host answers Neighbor Discovery for.
#[derive(Debug, PartialEq, Eq)]
pub struct Nd6Cfg {
    pub vni: u32,
    pub ip: String,
    pub mac: String,
}

/// What a [`Nd6Cfg`] holds.
#[verifier::ext_equal]
pub struct Nd6CfgView {
    pub vni: u32,
    pub ip: Seq<char>,
    pub mac: Seq<char>,
}

impl View for Nd6Cfg {
    type V = Nd6CfgView;

    open spec fn view(&self) -> Nd6CfgView {
        Nd6CfgView {
            vni: self.vni,
            ip: self.ip@,
            mac: self.mac@,
        }
    }
}

/// A remote MAC address and the tunnel toward it.
#[derive(Debug, PartialEq, Eq)]
pub struct MacRouteCfg {
    pub vni: u32,
    pub mac: String,
    pub remote_vtep: String,
    pub via_mac: String,
    pub out_iface: String,
}

/// What a [`MacRouteCfg`] holds.
#[verifier::ext_equal]
pub struct MacRouteCfgView {
    pub vni: u32,
    pub mac: Seq<char>,
    pub remote_vtep: Seq<char>,
    pub via_mac: Seq<char>,
    pub out_iface: Seq<char>,
}

impl View for MacRouteCfg {
    type V = MacRouteCfgView;

    open spec fn view(&self) -> MacRouteCfgView {
        MacRouteCfgView {
            vni: self.vni,
            mac: self.mac@,
            remote_vtep: self.remote_vtep@,
            via_mac: self.via_mac@,
            out_iface: self.out_iface@,
        }
    }
}

/// A remote endpoint that flooded frames are replicated to.
#[derive(Debug, PartialEq, Eq)]
pub struct FloodVtepCfg {
    pub vni: u32,
    pub remote_vtep: String,
    pub via_mac: String,
    pub out_iface: String,
}

/// What a [`FloodVtepCfg`] holds.
#[verifier::ext_equal]
pub struct FloodVtepCfgView {
    pub vni: u32,
    pub remote_vtep: Seq<char>,
    pub via_mac: Seq<char>,
    pub out_iface: Seq<char>,
}

impl View for FloodVtepCfg {
    type V = FloodVtepCfgView;

    open spec fn view(&self) -> FloodVtepCfgView {
        FloodVtepCfgView {
            vni: self.vni,
            remote_vtep: self.remote_vtep@,
            via_mac: self.via_mac@,
            out_iface: self.out_iface@,
        }
    }
}

/// A routed prefix, reached through the tenant's layer-3 segment.
#[derive(Debug, PartialEq, Eq)]
pub struct IrbRouteCfg {
    pub vni: u32,
    pub inner_dst: String,
    pub l3_vni: u32,
    pub remote_vtep: String,
    pub via_mac: String,
    pub out_iface: String,
    pub router_mac: String,
    pub gateway_mac: String,
}

/// What a [`IrbRouteCfg`] holds.
#[verifier::ext_equal]
pub struct IrbRouteCfgView {
    pub vni: u32,
    pub inner_dst: Seq<char>,
    pub l3_vni: u32,
    pub remote_vtep: Seq<char>,
    pub via_mac: Seq<char>,
    pub out_iface: Seq<char>,
    pub router_mac: Seq<char>,
    pub gateway_mac: Seq<char>,
}

impl View for IrbRouteCfg {
    type V = IrbRouteCfgView;

    open spec fn view(&self) -> IrbRouteCfgView {
        IrbRouteCfgView {
            vni: self.vni,
            inner_dst: self.inner_dst@,
            l3_vni: self.l3_vni,
            remote_vtep: self.remote_vtep@,
            via_mac: self.via_mac@,
            out_iface: self.out_iface@,
            router_mac: self.router_mac@,
            gateway_mac: self.gateway_mac@,
        }
    }
}

/// A remote MAC address and the service SID toward it.
#[derive(Debug, PartialEq, Eq)]
pub struct Srv6RouteCfg {
    pub vni: u32,
    pub mac: String,
    pub remote_sid: String,
    pub via_mac: String,
    pub out_iface: String,
}

/// What a [`Srv6RouteCfg`] holds.
#[verifier::ext_equal]
pub struct Srv6RouteCfgView {
    pub vni: u32,
    pub mac: Seq<char>,
    pub remote_sid: Seq<char>,
    pub via_mac: Seq<char>,
    pub out_iface: Seq<char>,
}

impl View for Srv6RouteCfg {
    type V = Srv6RouteCfgView;

    open spec fn view(&self) -> Srv6RouteCfgView {
        Srv6RouteCfgView {
            vni: self.vni,
            mac: self.mac@,
            remote_sid: self.remote_sid@,
            via_mac: self.via_mac@,
            out_iface: self.out_iface@,
        }
    }
}

/// A service SID that flooded frames are replicated to.
#[derive(Debug, PartialEq, Eq)]
pub struct Srv6FloodCfg {
    pub vni: u32,
    pub remote_sid: String,
    pub via_mac: String,
    pub out_iface: String,
}

/// What a [`Srv6FloodCfg`] holds.
#[verifier::ext_equal]
pub struct Srv6FloodCfgView {
    pub vni: u32,
    pub remote_sid: Seq<char>,
    pub via_mac: Seq<char>,
    pub out_iface: Seq<char>,
}

impl View for Srv6FloodCfg {
    type V = Srv6FloodCfgView;

    open spec fn view(&self) -> Srv6FloodCfgView {
        Srv6FloodCfgView {
            vni: self.vni,
            remote_sid: self.remote_sid@,
            via_mac: self.via_mac@,
            out_iface: self.out_iface@,
        }
    }
}

/// A service SID that the host terminates.
#[derive(Debug, PartialEq, Eq)]
pub struct Srv6LocalSidCfg {
    pub sid: String,
    pub vni: u32,
    pub behavior: Option<String>,
}

/// What a [`Srv6LocalSidCfg`] holds.
#[verifier::ext_equal]
pub struct Srv6LocalSidCfgView {
    pub sid: Seq<char>,
    pub vni: u32,
    pub behavior: Option<Seq<char>>,
}

impl View for Srv6LocalSidCfg {
    type V = Srv6LocalSidCfgView;

    open spec fn view(&self) -> Srv6LocalSidCfgView {
        Srv6LocalSidCfgView {
            sid: self.sid@,
            vni: self.vni,
            behavior: opt_view(self.behavior),
        }
    }
}

/// A routed prefix, reached through a service SID of the tenant's layer-3 segment.
#[derive(Debug, PartialEq, Eq)]
pub struct Srv6IrbRouteCfg {
    pub vni: u32,
    pub inner_dst: String,
    pub l3_vni: u32,
    pub remote_sid: String,
    pub via_mac: String,
    pub out_iface: String,
    pub router_mac: String,
    pub gateway_mac: String,
}

/// What a [`Srv6IrbRouteCfg`] holds.
#[verifier::ext_equal]
pub struct Srv6IrbRouteCfgView {
    pub vni: u32,
    pub inner_dst: Seq<char>,
    pub l3_vni: u32,
    pub remote_sid: Seq<char>,
    pub via_mac: Seq<char>,
    pub out_iface: Seq<char>,
    pub router_mac: Seq<char>,
    pub gateway_mac: Seq<char>,
}

impl View for Srv6IrbRouteCfg {
    type V = Srv6IrbRouteCfgView;

    open spec fn view(&self) -> Srv6IrbRouteCfgView {
        Srv6IrbRouteCfgView {
            vni: self.vni,
            inner_dst: self.inner_dst@,
            l3_vni: self.l3_vni,
            remote_sid: self.remote_sid@,
            via_mac: self.via_mac@,
            out_iface: self.out_iface@,
            router_mac: self.router_mac@,
            gateway_mac: self.gateway_mac@,
        }
    }
}

/// A server behind a service.
#[derive(Debug, PartialEq, Eq)]
pub struct BackendCfg {
    pub ip: String,
    /// The port of the server; 0 keeps the port that the client chose.
    pub port: u16,
}

/// What a [`BackendCfg`] holds.
#[verifier::ext_equal]
pub struct BackendCfgView {
    pub ip: Seq<char>,
    pub port: u16,
}

impl View for BackendCfg {
    type V = BackendCfgView;

    open spec fn view(&self) -> BackendCfgView {
        BackendCfgView {
            ip: self.ip@,
            port: self.port,
        }
    }
}

/// A virtual address in front of servers.
#[derive(Debug, PartialEq, Eq)]
pub struct ServiceCfg {
    pub vip: String,
    pub port: u16,
    pub proto: ProtoName,
    pub backends: Vec<BackendCfg>,
    /// The policy of the interfaces that the service is reached through.
    pub policy: u32,
}

/// What a [`ServiceCfg`] holds.
#[verifier::ext_equal]
pub struct ServiceCfgView {
    pub vip: Seq<char>,
    pub port: u16,
    pub proto: ProtoName,
    pub backends: Seq<BackendCfgView>,
    pub policy: u32,
}

impl View for ServiceCfg {
    type V = ServiceCfgView;

    open spec fn view(&self) -> ServiceCfgView {
        ServiceCfgView {
            vip: self.vip@,
            port: self.port,
            proto: self.proto,
            backends: views(self.backends@),
            policy: self.policy,
        }
    }
}

/// The whole configuration of one host.
#[derive(Debug, PartialEq, Eq)]
pub struct FileConfig {
    pub default_action: ActionName,
    /// Sources whose packets are dropped.
    pub blocklist: Vec<String>,
    pub overlay: Option<OverlayCfg>,
    pub srv6: Option<Srv6Cfg>,
    pub policies: Vec<PolicyFile>,
    pub interfaces: Vec<InterfaceFile>,
    pub tunnels: Vec<TunnelCfg>,
    pub neighbors: Vec<NeighborCfg>,
    pub nd_neighbors: Vec<Nd6Cfg>,
    pub mac_routes: Vec<MacRouteCfg>,
    pub flood_vteps: Vec<FloodVtepCfg>,
    pub irb_routes: Vec<IrbRouteCfg>,
    pub srv6_routes: Vec<Srv6RouteCfg>,
    pub srv6_floods: Vec<Srv6FloodCfg>,
    pub srv6_local_sids: Vec<Srv6LocalSidCfg>,
    pub srv6_irb_routes: Vec<Srv6IrbRouteCfg>,
    pub services: Vec<ServiceCfg>,
}

/// What a [`FileConfig`] holds.
#[verifier::ext_equal]
pub struct FileConfigView {
    pub default_action: ActionName,
    pub blocklist: Seq<Seq<char>>,
    pub overlay: Option<OverlayCfgView>,
    pub srv6: Option<Srv6CfgView>,
    pub policies: Seq<PolicyFileView>,
    pub interfaces: Seq<InterfaceFileView>,
    pub tunnels: Seq<TunnelCfgView>,
    pub neighbors: Seq<NeighborCfgView>,
    pub nd_neighbors: Seq<Nd6CfgView>,
    pub mac_routes: Seq<MacRouteCfgView>,
    pub flood_vteps: Seq<FloodVtepCfgView>,
    pub irb_routes: Seq<IrbRouteCfgView>,
    pub srv6_routes: Seq<Srv6RouteCfgView>,
    pub srv6_floods: Seq<Srv6FloodCfgView>,
    pub srv6_local_sids: Seq<Srv6LocalSidCfgView>,
    pub srv6_irb_routes: Seq<Srv6IrbRouteCfgView>,
    pub services: Seq<ServiceCfgView>,
}

impl View for FileConfig {
    type V = FileConfigView;

    open spec fn view(&self) -> FileConfigView {
        FileConfigView {
            default_action: self.default_action,
            blocklist: views(self.blocklist@),
            overlay: opt_view(self.overlay),
            srv6: opt_view(self.srv6),
            policies: views(self.policies@),
            interfaces: views(self.interfaces@),
            tunnels: views(self.tunnels@),
            neighbors: views(self.neighbors@),
            nd_neighbors: views(self.nd_neighbors@),
            mac_routes: views(self.mac_routes@),
            flood_vteps: views(self.flood_vteps@),
            irb_routes: views(self.irb_routes@),
            srv6_routes: views(self.srv6_routes@),
            srv6_floods: views(self.srv6_floods@),
            srv6_local_sids: views(self.srv6_local_sids@),
            srv6_irb_routes: views(self.srv6_irb_routes@),
            services: views(self.services@),
        }
    }
}

/// The configuration without any entry.
pub open spec fn empty_config() -> FileConfigView {
    FileConfigView {
        default_action: ActionName::Pass,
        blocklist: Seq::empty(),
        overlay: None,
        srv6: None,
        policies: Seq::empty(),
        interfaces: Seq::empty(),
        tunnels: Seq::empty(),
        neighbors: Seq::empty(),
        nd_neighbors: Seq::empty(),
        mac_routes: Seq::empty(),
        flood_vteps: Seq::empty(),
        irb_routes: Seq::empty(),
        srv6_routes: Seq::empty(),
        srv6_floods: Seq::empty(),
        srv6_local_sids: Seq::empty(),
        srv6_irb_routes: Seq::empty(),
        services: Seq::empty(),
    }
}

impl Default for FileConfig {
    fn default() -> (r: Self)
        ensures
            r@ == empty_config(),
    {
        let r = FileConfig {
            default_action: ActionName::Pass,
            blocklist: Vec::new(),
            overlay: None,
            srv6: None,
            policies: Vec::new(),
            interfaces: Vec::new(),
            tunnels: Vec::new(),
            neighbors: Vec::new(),
            nd_neighbors: Vec::new(),
            mac_routes: Vec::new(),
            flood_vteps: Vec::new(),
            irb_routes: Vec::new(),
            srv6_routes: Vec::new(),
            srv6_floods: Vec::new(),
            srv6_local_sids: Vec::new(),
            srv6_irb_routes: Vec::new(),
            services: Vec::new(),
        };
        assert(r@ =~= empty_config());
        r
    }
}

/// Copies a list of port rules.
pub fn clone_rules(v: &Vec<PortRule>) -> (r: Vec<PortRule>)
    ensures
        views(r@) == views(v@),
{
    let mut r: Vec<PortRule> = Vec::new();
    for i in 0..v.len()
        invariant
            r@.len() == i,
            forall|j: int| 0 <= j < i ==> r@[j]@ == v@[j]@,
    {
        r.push(v[i].clone());
    }
    assert(views(r@) =~= views(v@));
    r
}

/// What is seen of the records of this module is all that they hold, field by field.
pub proof fn config_records_are_seen_whole(
    port_rule: PortRule,
    policy_file: PolicyFile,
    overlay_cfg: OverlayCfg,
    srv6_cfg: Srv6Cfg,
    interface_file: InterfaceFile,
    tunnel_cfg: TunnelCfg,
    neighbor_cfg: NeighborCfg,
    nd6_cfg: Nd6Cfg,
    mac_route_cfg: MacRouteCfg,
    flood_vtep_cfg: FloodVtepCfg,
    irb_route_cfg: IrbRouteCfg,
    srv6_route_cfg: Srv6RouteCfg,
    srv6_flood_cfg: Srv6FloodCfg,
    srv6_local_sid_cfg: Srv6LocalSidCfg,
    srv6_irb_route_cfg: Srv6IrbRouteCfg,
    backend_cfg: BackendCfg,
    service_cfg: ServiceCfg,
    file_config: FileConfig,
)
    ensures
        port_rule@.proto == port_rule.proto,
        port_rule@.port == port_rule.port,
        port_rule@.action == port_rule.action,
        port_rule@.log == port_rule.log,
        port_rule@.src == opt_view(port_rule.src),
        policy_file@.id == policy_file.id,
        policy_file@.name == opt_view(policy_file.name),
        policy_file@.default_action == policy_file.default_action,
        policy_file@.drop_icmp == policy_file.drop_icmp,
        policy_file@.log == policy_file.log,
        policy_file@.stateful == policy_file.stateful,
        policy_file@.blocklist == views(policy_file.blocklist@),
        policy_file@.port_rules == views(policy_file.port_rules@),
        overlay_cfg@.local_vtep == overlay_cfg.local_vtep@,
        overlay_cfg@.underlay_iface == overlay_cfg.underlay_iface@,
        overlay_cfg@.encap == overlay_cfg.encap,
        overlay_cfg@.udp_port == overlay_cfg.udp_port,
        overlay_cfg@.local_mac == opt_view(overlay_cfg.local_mac),
        overlay_cfg@.underlay_mtu == overlay_cfg.underlay_mtu,
        srv6_cfg@.local_src == srv6_cfg.local_src@,
        srv6_cfg@.peers == views(srv6_cfg.peers@),
        interface_file@.name == interface_file.name@,
        interface_file@.policy == interface_file.policy,
        interface_file@.vni == interface_file.vni,
        interface_file@.masquerade == interface_file.masquerade,
        tunnel_cfg@.vni == tunnel_cfg.vni,
        tunnel_cfg@.inner_dst == tunnel_cfg.inner_dst@,
        tunnel_cfg@.remote_vtep == tunnel_cfg.remote_vtep@,
        tunnel_cfg@.via_mac == tunnel_cfg.via_mac@,
        tunnel_cfg@.out_iface == tunnel_cfg.out_iface@,
        neighbor_cfg@.vni == neighbor_cfg.vni,
        neighbor_cfg@.ip == neighbor_cfg.ip@,
        neighbor_cfg@.mac == neighbor_cfg.mac@,
        nd6_cfg@.vni == nd6_cfg.vni,
        nd6_cfg@.ip == nd6_cfg.ip@,
        nd6_cfg@.mac == nd6_cfg.mac@,
        mac_route_cfg@.vni == mac_route_cfg.vni,
        mac_route_cfg@.mac == mac_route_cfg.mac@,
        mac_route_cfg@.remote_vtep == mac_route_cfg.remote_vtep@,
        mac_route_cfg@.via_mac == mac_route_cfg.via_mac@,
        mac_route_cfg@.out_iface == mac_route_cfg.out_iface@,
        flood_vtep_cfg@.vni == flood_vtep_cfg.vni,
        flood_vtep_cfg@.remote_vtep == flood_vtep_cfg.remote_vtep@,
        flood_vtep_cfg@.via_mac == flood_vtep_cfg.via_mac@,
        flood_vtep_cfg@.out_iface == flood_vtep_cfg.out_iface@,
        irb_route_cfg@.vni == irb_route_cfg.vni,
        irb_route_cfg@.inner_dst == irb_route_cfg.inner_dst@,
        irb_route_cfg@.l3_vni == irb_route_cfg.l3_vni,
        irb_route_cfg@.remote_vtep == irb_route_cfg.remote_vtep@,
        irb_route_cfg@.via_mac == irb_route_cfg.via_mac@,
        irb_route_cfg@.out_iface == irb_route_cfg.out_iface@,
        irb_route_cfg@.router_mac == irb_route_cfg.router_mac@,
        irb_route_cfg@.gateway_mac == irb_route_cfg.gateway_mac@,
        srv6_route_cfg@.vni == srv6_route_cfg.vni,
        srv6_route_cfg@.mac == srv6_route_cfg.mac@,
        srv6_route_cfg@.remote_sid == srv6_route_cfg.remote_sid@,
        srv6_route_cfg@.via_mac == srv6_route_cfg.via_mac@,
        srv6_route_cfg@.out_iface == srv6_route_cfg.out_iface@,
        srv6_flood_cfg@.vni == srv6_flood_cfg.vni,
        srv6_flood_cfg@.remote_sid == srv6_flood_cfg.remote_sid@,
        srv6_flood_cfg@.via_mac == srv6_flood_cfg.via_mac@,
        srv6_flood_cfg@.out_iface == srv6_flood_cfg.out_iface@,
        srv6_local_sid_cfg@.sid == srv6_local_sid_cfg.sid@,
        srv6_local_sid_cfg@.vni == srv6_local_sid_cfg.vni,
        srv6_local_sid_cfg@.behavior == opt_view(srv6_local_sid_cfg.behavior),
        srv6_irb_route_cfg@.vni == srv6_irb_route_cfg.vni,
        srv6_irb_route_cfg@.inner_dst == srv6_irb_route_cfg.inner_dst@,
        srv6_irb_route_cfg@.l3_vni == srv6_irb_route_cfg.l3_vni,
        srv6_irb_route_cfg@.remote_sid == srv6_irb_route_cfg.remote_sid@,
        srv6_irb_route_cfg@.via_mac == srv6_irb_route_cfg.via_mac@,
        srv6_irb_route_cfg@.out_iface == srv6_irb_route_cfg.out_iface@,
        srv6_irb_route_cfg@.router_mac == srv6_irb_route_cfg.router_mac@,
        srv6_irb_route_cfg@.gateway_mac == srv6_irb_route_cfg.gateway_mac@,
        backend_cfg@.ip == backend_cfg.ip@,
        backend_cfg@.port == backend_cfg.port,
        service_cfg@.vip == service_cfg.vip@,
        service_cfg@.port == service_cfg.port,
        service_cfg@.proto == service_cfg.proto,
        service_cfg@.backends == views(service_cfg.backends@),
        service_cfg@.policy == service_cfg.policy,
        file_config@.default_action == file_config.default_action,
        file_config@.blocklist == views(file_config.blocklist@),
        file_config@.overlay == opt_view(file_config.overlay),
        file_config@.srv6 == opt_view(file_config.srv6),
        file_config@.policies == views(file_config.policies@),
        file_config@.interfaces == views(file_config.interfaces@),
        file_config@.tunnels == views(file_config.tunnels@),
        file_config@.neighbors == views(file_config.neighbors@),
        file_config@.nd_neighbors == views(file_config.nd_neighbors@),
        file_config@.mac_routes == views(file_config.mac_routes@),
        file_config@.flood_vteps == views(file_config.flood_vteps@),
        file_config@.irb_routes == views(file_config.irb_routes@),
        file_config@.srv6_routes == views(file_config.srv6_routes@),
        file_config@.srv6_floods == views(file_config.srv6_floods@),
        file_config@.srv6_local_sids == views(file_config.srv6_local_sids@),
        file_config@.srv6_irb_routes == views(file_config.srv6_irb_routes@),
        file_config@.services == views(file_config.services@),
{
}

/// A configuration that says nothing lets traffic pass, blocks nothing, joins no overlay and has no
/// entry in any table.
pub proof fn configuration_starts_empty()
    ensures
        empty_config().default_action == ActionName::Pass,
        empty_config().blocklist.len() == 0,
        empty_config().overlay is None,
        empty_config().srv6 is None,
        empty_config().policies.len() == 0,
        empty_config().interfaces.len() == 0,
        empty_config().tunnels.len() == 0,
        empty_config().neighbors.len() == 0,
        empty_config().nd_neighbors.len() == 0,
        empty_config().mac_routes.len() == 0,
        empty_config().flood_vteps.len() == 0,
        empty_config().irb_routes.len() == 0,
        empty_config().srv6_routes.len() == 0,
        empty_config().srv6_floods.len() == 0,
        empty_config().srv6_local_sids.len() == 0,
        empty_config().srv6_irb_routes.len() == 0,
        empty_config().services.len() == 0,
{
}

} // verus!
