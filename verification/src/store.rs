//! The replicated fabric: the requests that mutate it, how each is applied, the log of requests,
//! and the state machine that applies them in order.

use vstd::prelude::*;

use crate::addr::{
    cidr_fault, cidr_fault_text, cidr_v4_of, cidr_v6_of, fmt_mac, ip_of, ip_text, ipv4_of,
    ipv4_text, mac_fault, mac_fault_text, mac_from, mac_text, parse_cidr_v4, parse_cidr_v6,
    parse_mac, Cidr4, Cidr6, IpAddr, Ipv4Addr,
};
use crate::config::{clone_rules, ActionName, EncapName, PortRule, PortRuleView};
use crate::error::{caused, Error};
use crate::ipam::{
    assignable, in_pool, ip_number, is_free, lowest_address_is_given, AddressBook, AddressBookView,
    AddressSnapshot, HolderView,
};
use crate::lists::{
    distinct, first_index, first_index_properties, flat, keyed, keyed_at, keyed_domain, keyed_is,
};
use crate::orchestrator::{
    any_port, at_address, at_tap, bound_to, first_port_on_network, lowest_free_properties, on_host,
    on_network, other_at_tap, policy_id_of, unless_id, with_id, FabricSnapshot, Host, HostView,
    Network, NetworkView, Port, PortView, SecurityGroup, SecurityGroupView, Topology, TopologyView,
};
use crate::text::{
    clone_opt, clone_strings, debug_str, debug_text, decimal, find_char, find_char_properties,
    opt_view, push_decimal, views,
};
use crate::topology::{locator_mismatch, locator_mismatch_error};

verus! {

/// The id of a member of the cluster.
pub type NodeId = u64;

/// The prefix of a subnet, of either family.
#[derive(Clone, Copy, Debug, PartialEq, Eq)]
pub enum SubnetCidr {
    V4(Cidr4),
    V6(Cidr6),
}

/// The first and the last address of an allocation pool.
#[derive(Clone, Copy, Debug, PartialEq, Eq, Structural)]
pub struct AllocRange {
    pub start: IpAddr,
    pub end: IpAddr,
}

/// A subnet of a network.
#[derive(Debug, PartialEq, Eq)]
pub struct Subnet {
    pub id: String,
    pub vni: u32,
    pub cidr: SubnetCidr,
    pub gateway: Option<IpAddr>,
    pub pool: Option<AllocRange>,
    pub enable_dhcp: bool,
}

/// What a [`Subnet`] holds.
#[verifier::ext_equal]
pub struct SubnetView {
    pub id: Seq<char>,
    pub vni: u32,
    pub cidr: SubnetCidr,
    pub gateway: Option<IpAddr>,
    pub pool: Option<AllocRange>,
    pub enable_dhcp: bool,
}

impl View for Subnet {
    type V = SubnetView;

    open spec fn view(&self) -> SubnetView {
        SubnetView {
            id: self.id@,
            vni: self.vni,
            cidr: self.cidr,
            gateway: self.gateway,
            pool: self.pool,
            enable_dhcp: self.enable_dhcp,
        }
    }
}

impl Clone for Subnet {
    fn clone(&self) -> (r: Self)
        ensures
            r@ == self@,
    {
        Subnet {
            id: self.id.clone(),
            vni: self.vni,
            cidr: self.cidr,
            gateway: self.gateway,
            pool: self.pool,
            enable_dhcp: self.enable_dhcp,
        }
    }
}

/// What a floating address stands for: a fixed address of a port.
#[derive(Debug, PartialEq, Eq)]
pub struct Association {
    pub port_id: String,
    pub fixed_addr: IpAddr,
}

/// What a [`Association`] holds.
#[verifier::ext_equal]
pub struct AssociationView {
    pub port_id: Seq<char>,
    pub fixed_addr: IpAddr,
}

impl View for Association {
    type V = AssociationView;

    open spec fn view(&self) -> AssociationView {
        AssociationView {
            port_id: self.port_id@,
            fixed_addr: self.fixed_addr,
        }
    }
}

/// A floating address.
#[derive(Debug, PartialEq, Eq)]
pub struct FloatingIp {
    pub id: String,
    pub vni: u32,
    pub subnet_id: String,
    pub addr: IpAddr,
    pub association: Option<Association>,
}

/// What a [`FloatingIp`] holds.
#[verifier::ext_equal]
pub struct FloatingIpView {
    pub id: Seq<char>,
    pub vni: u32,
    pub subnet_id: Seq<char>,
    pub addr: IpAddr,
    pub association: Option<AssociationView>,
}

impl View for FloatingIp {
    type V = FloatingIpView;

    open spec fn view(&self) -> FloatingIpView {
        FloatingIpView {
            id: self.id@,
            vni: self.vni,
            subnet_id: self.subnet_id@,
            addr: self.addr,
            association: opt_view(self.association),
        }
    }
}

impl Clone for FloatingIp {
    fn clone(&self) -> (r: Self)
        ensures
            r@ == self@,
    {
        FloatingIp {
            id: self.id.clone(),
            vni: self.vni,
            subnet_id: self.subnet_id.clone(),
            addr: self.addr,
            association: match &self.association {
                Some(a) => Some(
                    Association { port_id: a.port_id.clone(), fixed_addr: a.fixed_addr },
                ),
                None => None,
            },
        }
    }
}

/// The description of a host in a request.
#[derive(Debug, PartialEq, Eq)]
pub struct HostSpec {
    pub id: String,
    pub vtep: String,
    pub underlay_iface: String,
    pub underlay_mac: String,
    pub encap: EncapName,
    pub udp_port: Option<u16>,
    pub underlay_mtu: Option<u16>,
}

/// What a [`HostSpec`] holds.
#[verifier::ext_equal]
pub struct HostSpecView {
    pub id: Seq<char>,
    pub vtep: Seq<char>,
    pub underlay_iface: Seq<char>,
    pub underlay_mac: Seq<char>,
    pub encap: EncapName,
    pub udp_port: Option<u16>,
    pub underlay_mtu: Option<u16>,
}

impl View for HostSpec {
    type V = HostSpecView;

    open spec fn view(&self) -> HostSpecView {
        HostSpecView {
            id: self.id@,
            vtep: self.vtep@,
            underlay_iface: self.underlay_iface@,
            underlay_mac: self.underlay_mac@,
            encap: self.encap,
            udp_port: self.udp_port,
            underlay_mtu: self.underlay_mtu,
        }
    }
}

impl Clone for HostSpec {
    fn clone(&self) -> (r: Self)
        ensures
            r@ == self@,
    {
        HostSpec {
            id: self.id.clone(),
            vtep: self.vtep.clone(),
            underlay_iface: self.underlay_iface.clone(),
            underlay_mac: self.underlay_mac.clone(),
            encap: self.encap,
            udp_port: self.udp_port,
            underlay_mtu: self.underlay_mtu,
        }
    }
}

/// The description of a network in a request.
#[derive(Debug, PartialEq, Eq)]
pub struct NetworkSpec {
    pub vni: u32,
    pub name: String,
    pub subnet: String,
    pub default_action: ActionName,
    pub drop_icmp: bool,
}

/// What a [`NetworkSpec`] holds.
#[verifier::ext_equal]
pub struct NetworkSpecView {
    pub vni: u32,
    pub name: Seq<char>,
    pub subnet: Seq<char>,
    pub default_action: ActionName,
    pub drop_icmp: bool,
}

impl View for NetworkSpec {
    type V = NetworkSpecView;

    open spec fn view(&self) -> NetworkSpecView {
        NetworkSpecView {
            vni: self.vni,
            name: self.name@,
            subnet: self.subnet@,
            default_action: self.default_action,
            drop_icmp: self.drop_icmp,
        }
    }
}

impl Clone for NetworkSpec {
    fn clone(&self) -> (r: Self)
        ensures
            r@ == self@,
    {
        NetworkSpec {
            vni: self.vni,
            name: self.name.clone(),
            subnet: self.subnet.clone(),
            default_action: self.default_action,
            drop_icmp: self.drop_icmp,
        }
    }
}

/// The description of a security group in a request.
#[derive(Debug, PartialEq, Eq)]
pub struct SecurityGroupSpec {
    pub name: String,
    pub default_action: ActionName,
    pub drop_icmp: bool,
    pub stateful: bool,
    pub blocklist: Vec<String>,
    pub rules: Vec<PortRule>,
}

/// What a [`SecurityGroupSpec`] holds.
#[verifier::ext_equal]
pub struct SecurityGroupSpecView {
    pub name: Seq<char>,
    pub default_action: ActionName,
    pub drop_icmp: bool,
    pub stateful: bool,
    pub blocklist: Seq<Seq<char>>,
    pub rules: Seq<PortRuleView>,
}

impl View for SecurityGroupSpec {
    type V = SecurityGroupSpecView;

    open spec fn view(&self) -> SecurityGroupSpecView {
        SecurityGroupSpecView {
            name: self.name@,
            default_action: self.default_action,
            drop_icmp: self.drop_icmp,
            stateful: self.stateful,
            blocklist: views(self.blocklist@),
            rules: views(self.rules@),
        }
    }
}

impl Clone for SecurityGroupSpec {
    fn clone(&self) -> (r: Self)
        ensures
            r@ == self@,
    {
        SecurityGroupSpec {
            name: self.name.clone(),
            default_action: self.default_action,
            drop_icmp: self.drop_icmp,
            stateful: self.stateful,
            blocklist: clone_strings(&self.blocklist),
            rules: clone_rules(&self.rules),
        }
    }
}

/// The description of a subnet in a request.
#[derive(Debug, PartialEq, Eq)]
pub struct SubnetSpec {
    pub id: String,
    pub vni: u32,
    /// Prefix of either family.
    pub cidr: String,
    pub gateway: Option<String>,
    pub pool_start: Option<String>,
    pub pool_end: Option<String>,
    pub enable_dhcp: bool,
}

/// What a [`SubnetSpec`] holds.
#[verifier::ext_equal]
pub struct SubnetSpecView {
    pub id: Seq<char>,
    pub vni: u32,
    pub cidr: Seq<char>,
    pub gateway: Option<Seq<char>>,
    pub pool_start: Option<Seq<char>>,
    pub pool_end: Option<Seq<char>>,
    pub enable_dhcp: bool,
}

impl View for SubnetSpec {
    type V = SubnetSpecView;

    open spec fn view(&self) -> SubnetSpecView {
        SubnetSpecView {
            id: self.id@,
            vni: self.vni,
            cidr: self.cidr@,
            gateway: opt_view(self.gateway),
            pool_start: opt_view(self.pool_start),
            pool_end: opt_view(self.pool_end),
            enable_dhcp: self.enable_dhcp,
        }
    }
}

impl Clone for SubnetSpec {
    fn clone(&self) -> (r: Self)
        ensures
            r@ == self@,
    {
        SubnetSpec {
            id: self.id.clone(),
            vni: self.vni,
            cidr: self.cidr.clone(),
            gateway: clone_opt(&self.gateway),
            pool_start: clone_opt(&self.pool_start),
            pool_end: clone_opt(&self.pool_end),
            enable_dhcp: self.enable_dhcp,
        }
    }
}

/// A floating address in a response. The last two fields are `None` where it is not associated.
#[derive(Debug, PartialEq, Eq)]
pub struct FloatingIpRecord {
    pub id: String,
    pub vni: u32,
    pub subnet_id: String,
    pub addr: String,
    pub assoc_port: Option<String>,
    pub assoc_fixed: Option<String>,
}

/// What a [`FloatingIpRecord`] holds.
#[verifier::ext_equal]
pub struct FloatingIpRecordView {
    pub id: Seq<char>,
    pub vni: u32,
    pub subnet_id: Seq<char>,
    pub addr: Seq<char>,
    pub assoc_port: Option<Seq<char>>,
    pub assoc_fixed: Option<Seq<char>>,
}

impl View for FloatingIpRecord {
    type V = FloatingIpRecordView;

    open spec fn view(&self) -> FloatingIpRecordView {
        FloatingIpRecordView {
            id: self.id@,
            vni: self.vni,
            subnet_id: self.subnet_id@,
            addr: self.addr@,
            assoc_port: opt_view(self.assoc_port),
            assoc_fixed: opt_view(self.assoc_fixed),
        }
    }
}

/// A port in a response.
#[derive(Debug, PartialEq, Eq)]
pub struct PortRecord {
    pub id: String,
    pub vni: u32,
    pub host: String,
    pub ip: String,
    pub mac: String,
    pub tap: String,
}

/// What a [`PortRecord`] holds.
#[verifier::ext_equal]
pub struct PortRecordView {
    pub id: Seq<char>,
    pub vni: u32,
    pub host: Seq<char>,
    pub ip: Seq<char>,
    pub mac: Seq<char>,
    pub tap: Seq<char>,
}

impl View for PortRecord {
    type V = PortRecordView;

    open spec fn view(&self) -> PortRecordView {
        PortRecordView {
            id: self.id@,
            vni: self.vni,
            host: self.host@,
            ip: self.ip@,
            mac: self.mac@,
            tap: self.tap@,
        }
    }
}

/// The result of a request.
#[derive(Debug, PartialEq, Eq)]
pub struct TopoResponse {
    pub ok: bool,
    pub error: Option<String>,
    /// The port created or changed.
    pub port: Option<PortRecord>,
    /// The address allocated.
    pub addr: Option<String>,
    /// The floating address affected.
    pub floating: Option<FloatingIpRecord>,
}

/// What a [`TopoResponse`] holds.
#[verifier::ext_equal]
pub struct TopoResponseView {
    pub ok: bool,
    pub error: Option<Seq<char>>,
    pub port: Option<PortRecordView>,
    pub addr: Option<Seq<char>>,
    pub floating: Option<FloatingIpRecordView>,
}

impl View for TopoResponse {
    type V = TopoResponseView;

    open spec fn view(&self) -> TopoResponseView {
        TopoResponseView {
            ok: self.ok,
            error: opt_view(self.error),
            port: opt_view(self.port),
            addr: opt_view(self.addr),
            floating: opt_view(self.floating),
        }
    }
}

/// A mutation of the fabric: the unit of replication.
#[derive(Debug, PartialEq, Eq)]
pub enum TopoRequest {
    /// Register a host.
    AddHost(HostSpec),
    /// Define a network.
    AddNetwork(NetworkSpec),
    /// Create a port; `policy` defaults to the VNI.
    CreatePort { vni: u32, host: String, tap: String, ip: Option<String>, policy: Option<u32> },
    /// Remove a port.
    RemovePort { id: String },
    /// Move a port.
    MigratePort { id: String, host: String, tap: String },
    /// Retire a host.
    RemoveHost { id: String },
    /// Decommission a network.
    RemoveNetwork { vni: u32 },
    /// Register a security group.
    AddSecurityGroup(SecurityGroupSpec),
    /// Remove a security group.
    RemoveSecurityGroup { name: String },
    /// Bind a port to a security group, or clear the binding.
    SetPortSecurityGroup { port_id: String, group: Option<String> },
    /// Define a subnet of a network.
    AddSubnet(SubnetSpec),
    /// Remove a subnet.
    RemoveSubnet { id: String },
    /// Bind a port to a subnet, with an allocated or a requested address.
    BindPortSubnet { port_id: String, subnet_id: String, ip: Option<String> },
    /// Release one of a port's addresses.
    UnbindPortAddress { port_id: String, subnet_id: String, addr: String },
    /// Allocate an address, or the requested one.
    AllocateAddress { subnet_id: String, ip: Option<String> },
    /// Release an address.
    ReleaseAddress { subnet_id: String, addr: String },
    /// Allocate a floating address.
    AllocateFloatingIp { subnet_id: String, ip: Option<String> },
    /// Associate a floating address with a port's fixed address.
    AssociateFloatingIp { id: String, port_id: String, fixed_addr: String },
    /// Clear the association of a floating address.
    DisassociateFloatingIp { id: String },
    /// Release a floating address.
    ReleaseFloatingIp { id: String },
}

/// What a [`TopoRequest`] holds.
pub enum TopoRequestView {
    AddHost(HostSpecView),
    AddNetwork(NetworkSpecView),
    CreatePort {
        vni: u32,
        host: Seq<char>,
        tap: Seq<char>,
        ip: Option<Seq<char>>,
        policy: Option<u32>,
    },
    RemovePort { id: Seq<char> },
    MigratePort { id: Seq<char>, host: Seq<char>, tap: Seq<char> },
    RemoveHost { id: Seq<char> },
    RemoveNetwork { vni: u32 },
    AddSecurityGroup(SecurityGroupSpecView),
    RemoveSecurityGroup { name: Seq<char> },
    SetPortSecurityGroup { port_id: Seq<char>, group: Option<Seq<char>> },
    AddSubnet(SubnetSpecView),
    RemoveSubnet { id: Seq<char> },
    BindPortSubnet { port_id: Seq<char>, subnet_id: Seq<char>, ip: Option<Seq<char>> },
    UnbindPortAddress { port_id: Seq<char>, subnet_id: Seq<char>, addr: Seq<char> },
    AllocateAddress { subnet_id: Seq<char>, ip: Option<Seq<char>> },
    ReleaseAddress { subnet_id: Seq<char>, addr: Seq<char> },
    AllocateFloatingIp { subnet_id: Seq<char>, ip: Option<Seq<char>> },
    AssociateFloatingIp { id: Seq<char>, port_id: Seq<char>, fixed_addr: Seq<char> },
    DisassociateFloatingIp { id: Seq<char> },
    ReleaseFloatingIp { id: Seq<char> },
}

impl View for TopoRequest {
    type V = TopoRequestView;

    open spec fn view(&self) -> TopoRequestView {
        match self {
            TopoRequest::AddHost(s) => TopoRequestView::AddHost(s@),
            TopoRequest::AddNetwork(s) => TopoRequestView::AddNetwork(s@),
            TopoRequest::CreatePort { vni, host, tap, ip, policy } => TopoRequestView::CreatePort {
                vni: *vni,
                host: host@,
                tap: tap@,
                ip: opt_view(*ip),
                policy: *policy,
            },
            TopoRequest::RemovePort { id } => TopoRequestView::RemovePort {
                id: id@,
            },
            TopoRequest::MigratePort { id, host, tap } => TopoRequestView::MigratePort {
                id: id@,
                host: host@,
                tap: tap@,
            },
            TopoRequest::RemoveHost { id } => TopoRequestView::RemoveHost {
                id: id@,
            },
            TopoRequest::RemoveNetwork { vni } => TopoRequestView::RemoveNetwork {
                vni: *vni,
            },
            TopoRequest::AddSecurityGroup(s) => TopoRequestView::AddSecurityGroup(s@),
            TopoRequest::RemoveSecurityGroup { name } => TopoRequestView::RemoveSecurityGroup {
                name: name@,
            },
            TopoRequest::SetPortSecurityGroup { port_id, group } =>
                TopoRequestView::SetPortSecurityGroup {
                port_id: port_id@,
                group: opt_view(*group),
            },
            TopoRequest::AddSubnet(s) => TopoRequestView::AddSubnet(s@),
            TopoRequest::RemoveSubnet { id } => TopoRequestView::RemoveSubnet {
                id: id@,
            },
            TopoRequest::BindPortSubnet { port_id, subnet_id, ip } =>
                TopoRequestView::BindPortSubnet {
                port_id: port_id@,
                subnet_id: subnet_id@,
                ip: opt_view(*ip),
            },
            TopoRequest::UnbindPortAddress { port_id, subnet_id, addr } =>
                TopoRequestView::UnbindPortAddress {
                port_id: port_id@,
                subnet_id: subnet_id@,
                addr: addr@,
            },
            TopoRequest::AllocateAddress { subnet_id, ip } => TopoRequestView::AllocateAddress {
                subnet_id: subnet_id@,
                ip: opt_view(*ip),
            },
            TopoRequest::ReleaseAddress { subnet_id, addr } => TopoRequestView::ReleaseAddress {
                subnet_id: subnet_id@,
                addr: addr@,
            },
            TopoRequest::AllocateFloatingIp { subnet_id, ip } =>
                TopoRequestView::AllocateFloatingIp {
                subnet_id: subnet_id@,
                ip: opt_view(*ip),
            },
            TopoRequest::AssociateFloatingIp { id, port_id, fixed_addr } =>
                TopoRequestView::AssociateFloatingIp {
                id: id@,
                port_id: port_id@,
                fixed_addr: fixed_addr@,
            },
            TopoRequest::DisassociateFloatingIp { id } => TopoRequestView::DisassociateFloatingIp {
                id: id@,
            },
            TopoRequest::ReleaseFloatingIp { id } => TopoRequestView::ReleaseFloatingIp {
                id: id@,
            },
        }
    }
}

impl Clone for TopoRequest {
    fn clone(&self) -> (r: Self)
        ensures
            r@ == self@,
    {
        match self {
            TopoRequest::AddHost(s) => TopoRequest::AddHost(s.clone()),
            TopoRequest::AddNetwork(s) => TopoRequest::AddNetwork(s.clone()),
            TopoRequest::CreatePort { vni, host, tap, ip, policy } => TopoRequest::CreatePort {
                vni: *vni,
                host: host.clone(),
                tap: tap.clone(),
                ip: clone_opt(ip),
                policy: *policy,
            },
            TopoRequest::RemovePort { id } => TopoRequest::RemovePort {
                id: id.clone(),
            },
            TopoRequest::MigratePort { id, host, tap } => TopoRequest::MigratePort {
                id: id.clone(),
                host: host.clone(),
                tap: tap.clone(),
            },
            TopoRequest::RemoveHost { id } => TopoRequest::RemoveHost {
                id: id.clone(),
            },
            TopoRequest::RemoveNetwork { vni } => TopoRequest::RemoveNetwork {
                vni: *vni,
            },
            TopoRequest::AddSecurityGroup(s) => TopoRequest::AddSecurityGroup(s.clone()),
            TopoRequest::RemoveSecurityGroup { name } => TopoRequest::RemoveSecurityGroup {
                name: name.clone(),
            },
            TopoRequest::SetPortSecurityGroup { port_id, group } =>
                TopoRequest::SetPortSecurityGroup {
                port_id: port_id.clone(),
                group: clone_opt(group),
            },
            TopoRequest::AddSubnet(s) => TopoRequest::AddSubnet(s.clone()),
            TopoRequest::RemoveSubnet { id } => TopoRequest::RemoveSubnet {
                id: id.clone(),
            },
            TopoRequest::BindPortSubnet { port_id, subnet_id, ip } => TopoRequest::BindPortSubnet {
                port_id: port_id.clone(),
                subnet_id: subnet_id.clone(),
                ip: clone_opt(ip),
            },
            TopoRequest::UnbindPortAddress { port_id, subnet_id, addr } =>
                TopoRequest::UnbindPortAddress {
                port_id: port_id.clone(),
                subnet_id: subnet_id.clone(),
                addr: addr.clone(),
            },
            TopoRequest::AllocateAddress { subnet_id, ip } => TopoRequest::AllocateAddress {
                subnet_id: subnet_id.clone(),
                ip: clone_opt(ip),
            },
            TopoRequest::ReleaseAddress { subnet_id, addr } => TopoRequest::ReleaseAddress {
                subnet_id: subnet_id.clone(),
                addr: addr.clone(),
            },
            TopoRequest::AllocateFloatingIp { subnet_id, ip } => TopoRequest::AllocateFloatingIp {
                subnet_id: subnet_id.clone(),
                ip: clone_opt(ip),
            },
            TopoRequest::AssociateFloatingIp { id, port_id, fixed_addr } =>
                TopoRequest::AssociateFloatingIp {
                id: id.clone(),
                port_id: port_id.clone(),
                fixed_addr: fixed_addr.clone(),
            },
            TopoRequest::DisassociateFloatingIp { id } => TopoRequest::DisassociateFloatingIp {
                id: id.clone(),
            },
            TopoRequest::ReleaseFloatingIp { id } => TopoRequest::ReleaseFloatingIp {
                id: id.clone(),
            },
        }
    }
}

// ---------------------------------------------------------------------------
// Responses
// ---------------------------------------------------------------------------

impl TopoResponseView {
    /// Success, with nothing to report.
    pub open spec fn ok() -> TopoResponseView {
        TopoResponseView { ok: true, error: None, port: None, addr: None, floating: None }
    }

    /// Success, with a port.
    pub open spec fn ok_port(port: PortRecordView) -> TopoResponseView {
        TopoResponseView { port: Some(port), ..TopoResponseView::ok() }
    }

    /// Success, with an address.
    pub open spec fn ok_addr(addr: Seq<char>) -> TopoResponseView {
        TopoResponseView { addr: Some(addr), ..TopoResponseView::ok() }
    }

    /// Success, with a floating address.
    pub open spec fn ok_floating(f: FloatingIpRecordView) -> TopoResponseView {
        TopoResponseView { floating: Some(f), ..TopoResponseView::ok() }
    }

    /// Failure, with the reason.
    pub open spec fn err(e: Seq<char>) -> TopoResponseView {
        TopoResponseView { ok: false, error: Some(e), port: None, addr: None, floating: None }
    }
}

impl TopoResponse {
    /// Success, with nothing to report.
    pub fn ok() -> (r: TopoResponse)
        ensures
            r@ == TopoResponseView::ok(),
    {
        TopoResponse { ok: true, error: None, port: None, addr: None, floating: None }
    }

    /// Success, with a port.
    pub fn ok_port(port: PortRecord) -> (r: TopoResponse)
        ensures
            r@ == TopoResponseView::ok_port(port@),
    {
        TopoResponse { ok: true, error: None, port: Some(port), addr: None, floating: None }
    }

    /// Success, with an address.
    pub fn ok_addr(addr: String) -> (r: TopoResponse)
        ensures
            r@ == TopoResponseView::ok_addr(addr@),
    {
        TopoResponse { ok: true, error: None, port: None, addr: Some(addr), floating: None }
    }

    /// Success, with a floating address.
    pub fn ok_floating(floating: FloatingIpRecord) -> (r: TopoResponse)
        ensures
            r@ == TopoResponseView::ok_floating(floating@),
    {
        TopoResponse { ok: true, error: None, port: None, addr: None, floating: Some(floating) }
    }

    /// Failure, with the reason.
    pub fn err(e: Error) -> (r: TopoResponse)
        ensures
            r@ == TopoResponseView::err(e@),
    {
        TopoResponse { ok: false, error: Some(e.message), port: None, addr: None, floating: None }
    }
}

/// The record of a port: its address and MAC address as text.
pub open spec fn port_record_of(p: PortView) -> PortRecordView {
    PortRecordView {
        id: p.id,
        vni: p.vni,
        host: p.host,
        ip: ipv4_text(p.ip),
        mac: mac_text(p.mac),
        tap: p.tap,
    }
}

/// The record of a port.
pub fn port_record(p: &Port) -> (r: PortRecord)
    ensures
        r@ == port_record_of(p@),
{
    PortRecord {
        id: p.id.clone(),
        vni: p.vni,
        host: p.host.clone(),
        ip: p.ip.to_string(),
        mac: fmt_mac(p.mac),
        tap: p.tap.clone(),
    }
}

/// The record of a floating address: its addresses as text.
pub open spec fn fip_record_of(f: FloatingIpView) -> FloatingIpRecordView {
    FloatingIpRecordView {
        id: f.id,
        vni: f.vni,
        subnet_id: f.subnet_id,
        addr: ip_text(f.addr),
        assoc_port: match f.association {
            Some(a) => Some(a.port_id),
            None => None,
        },
        assoc_fixed: match f.association {
            Some(a) => Some(ip_text(a.fixed_addr)),
            None => None,
        },
    }
}

/// The record of a floating address.
pub fn fip_record(f: &FloatingIp) -> (r: FloatingIpRecord)
    ensures
        r@ == fip_record_of(f@),
{
    FloatingIpRecord {
        id: f.id.clone(),
        vni: f.vni,
        subnet_id: f.subnet_id.clone(),
        addr: f.addr.to_string(),
        assoc_port: match &f.association {
            Some(a) => Some(a.port_id.clone()),
            None => None,
        },
        assoc_fixed: match &f.association {
            Some(a) => Some(a.fixed_addr.to_string()),
            None => None,
        },
    }
}

// ---------------------------------------------------------------------------
// Descriptions
// ---------------------------------------------------------------------------

/// A label, then quoted text.
pub open spec fn quoted(label: Seq<char>, s: Seq<char>) -> Seq<char> {
    label + debug_text(s)
}

pub(crate) fn quoted_error(label: &str, s: &str) -> (r: Error)
    ensures
        r@ == quoted(label@, s@),
{
    let mut m = String::from_str(label);
    m.append(debug_str(s).as_str());
    Error::new(m)
}

/// The host that a description gives, or why it gives none. A description has no locator, so its host
/// cannot use SRv6.
pub open spec fn host_of(s: HostSpecView) -> Result<HostView, Seq<char>> {
    match ipv4_of(s.vtep) {
        None => Err(quoted("invalid vtep "@, s.vtep)),
        Some(vtep_ip) => match mac_from(s.underlay_mac) {
            None => Err("invalid mac: "@ + mac_fault()),
            Some(underlay_mac) => if s.encap == EncapName::Srv6 {
                Err(locator_mismatch(s.id))
            } else {
                Ok(
                    HostView {
                        id: s.id,
                        vtep_ip,
                        underlay_iface: s.underlay_iface,
                        underlay_mac,
                        encap: s.encap,
                        udp_port: s.udp_port,
                        underlay_mtu: s.underlay_mtu,
                    },
                )
            },
        },
    }
}

/// Builds a host from its description.
pub fn host_from_spec(s: &HostSpec) -> (r: Result<Host, Error>)
    ensures
        match r {
            Ok(h) => host_of(s@) == Ok::<HostView, Seq<char>>(h@),
            Err(e) => host_of(s@) == Err::<HostView, Seq<char>>(e@),
        },
{
    let vtep_ip = match Ipv4Addr::parse(s.vtep.as_str()) {
        Some(a) => a,
        None => {
            return Err(quoted_error("invalid vtep ", s.vtep.as_str()));
        },
    };
    let underlay_mac = match parse_mac(s.underlay_mac.as_str()) {
        Some(m) => m,
        None => {
            let mut m = String::from_str("invalid mac: ");
            m.append(mac_fault_text());
            return Err(Error::new(m));
        },
    };
    if s.encap.is_srv6() {
        return Err(locator_mismatch_error(s.id.as_str()));
    }
    Ok(
        Host {
            id: s.id.clone(),
            vtep_ip,
            underlay_iface: s.underlay_iface.clone(),
            underlay_mac,
            encap: s.encap,
            udp_port: s.udp_port,
            underlay_mtu: s.underlay_mtu,
        },
    )
}

/// The network that a description gives, or why it gives none.
pub open spec fn network_of(s: NetworkSpecView) -> Result<NetworkView, Seq<char>> {
    match cidr_v4_of(s.subnet) {
        None => Err("invalid subnet: "@ + cidr_fault(false)),
        Some(subnet) => Ok(
            NetworkView {
                vni: s.vni,
                name: s.name,
                subnet,
                default_action: s.default_action,
                drop_icmp: s.drop_icmp,
            },
        ),
    }
}

/// Builds a network from its description.
pub fn network_from_spec(s: &NetworkSpec) -> (r: Result<Network, Error>)
    ensures
        match r {
            Ok(n) => network_of(s@) == Ok::<NetworkView, Seq<char>>(n@) && n.subnet.valid(),
            Err(e) => network_of(s@) == Err::<NetworkView, Seq<char>>(e@),
        },
{
    match parse_cidr_v4(s.subnet.as_str()) {
        Some(subnet) => Ok(
            Network {
                vni: s.vni,
                name: s.name.clone(),
                subnet,
                default_action: s.default_action,
                drop_icmp: s.drop_icmp,
            },
        ),
        None => {
            let mut m = String::from_str("invalid subnet: ");
            m.append(cidr_fault_text(false));
            Err(Error::new(m))
        },
    }
}

/// The security group that a description gives.
pub open spec fn group_of(s: SecurityGroupSpecView) -> SecurityGroupView {
    SecurityGroupView {
        name: s.name,
        default_action: s.default_action,
        drop_icmp: s.drop_icmp,
        stateful: s.stateful,
        blocklist: s.blocklist,
        rules: s.rules,
    }
}

/// Builds a security group from its description.
pub fn sg_from_spec(s: &SecurityGroupSpec) -> (r: SecurityGroup)
    ensures
        r@ == group_of(s@),
{
    SecurityGroup {
        name: s.name.clone(),
        default_action: s.default_action,
        drop_icmp: s.drop_icmp,
        stateful: s.stateful,
        blocklist: clone_strings(&s.blocklist),
        rules: clone_rules(&s.rules),
    }
}

/// The address that optional text writes; no text stands for any address.
pub open spec fn opt_ip_of(s: Option<Seq<char>>) -> Result<Option<IpAddr>, Seq<char>> {
    match s {
        None => Ok(None),
        Some(t) => match ip_of(t) {
            Some(a) => Ok(Some(a)),
            None => Err(quoted("invalid ip "@, t)),
        },
    }
}

/// Reads an optional address.
pub fn parse_opt_ip(s: &Option<String>) -> (r: Result<Option<IpAddr>, Error>)
    ensures
        match r {
            Ok(a) => opt_ip_of(opt_view(*s)) == Ok::<Option<IpAddr>, Seq<char>>(a),
            Err(e) => opt_ip_of(opt_view(*s)) == Err::<Option<IpAddr>, Seq<char>>(e@),
        },
{
    match s {
        Some(t) => match IpAddr::parse(t.as_str()) {
            Some(a) => Ok(Some(a)),
            None => Err(quoted_error("invalid ip ", t.as_str())),
        },
        None => Ok(None),
    }
}

/// Text that writes something of IPv6, if it writes an address at all.
pub open spec fn is_v6_text(s: Seq<char>) -> bool {
    find_char(s, ':') < s.len()
}

/// Decides [`is_v6_text`].
pub fn looks_v6(s: &str) -> (r: bool)
    ensures
        r == is_v6_text(s@),
{
    let v = crate::text::chars_of(s);
    assert(v@.skip(0) =~= v@);
    crate::text::find_from(&v, ':', 0) < v.len()
}

/// The prefix that text writes: IPv6 where it holds a colon, else IPv4.
pub open spec fn subnet_cidr_of(s: Seq<char>) -> Option<SubnetCidr> {
    if is_v6_text(s) {
        match cidr_v6_of(s) {
            Some(c) => Some(SubnetCidr::V6(c)),
            None => None,
        }
    } else {
        match cidr_v4_of(s) {
            Some(c) => Some(SubnetCidr::V4(c)),
            None => None,
        }
    }
}

/// Reads a prefix of either family.
pub fn parse_subnet_cidr(s: &str) -> (r: Option<SubnetCidr>)
    ensures
        r == subnet_cidr_of(s@),
{
    if looks_v6(s) {
        match parse_cidr_v6(s) {
            Some(c) => Some(SubnetCidr::V6(c)),
            None => None,
        }
    } else {
        match parse_cidr_v4(s) {
            Some(c) => Some(SubnetCidr::V4(c)),
            None => None,
        }
    }
}

/// The gateway that a description gives.
pub open spec fn gateway_of(s: Option<Seq<char>>) -> Result<Option<IpAddr>, Seq<char>> {
    match s {
        None => Ok(None),
        Some(t) => match ip_of(t) {
            Some(a) => Ok(Some(a)),
            None => Err(quoted("invalid gateway "@, t)),
        },
    }
}

/// The pool that a description gives: both ends, or none.
pub open spec fn pool_of(id: Seq<char>, start: Option<Seq<char>>, end: Option<Seq<char>>) -> Result<
    Option<AllocRange>,
    Seq<char>,
> {
    match (start, end) {
        (Some(a), Some(b)) => match (ip_of(a), ip_of(b)) {
            (None, _) => Err(quoted("invalid pool start "@, a)),
            (Some(_), None) => Err(quoted("invalid pool end "@, b)),
            (Some(x), Some(y)) => Ok(Some(AllocRange { start: x, end: y })),
        },
        (None, None) => Ok(None),
        _ => Err(quoted("subnet "@, id) + ": pool requires both start and end"@),
    }
}

/// The subnet that a description gives, or why it gives none.
pub open spec fn subnet_of(s: SubnetSpecView) -> Result<SubnetView, Seq<char>> {
    match (
        subnet_cidr_of(s.cidr),
        gateway_of(s.gateway),
        pool_of(s.id, s.pool_start, s.pool_end),
    ) {
        (None, _, _) => Err(
            quoted("invalid cidr "@, s.cidr) + ": "@ + cidr_fault(is_v6_text(s.cidr)),
        ),
        (Some(_), Err(e), _) => Err(e),
        (Some(_), Ok(_), Err(e)) => Err(e),
        (Some(cidr), Ok(gateway), Ok(pool)) => Ok(
            SubnetView {
                id: s.id,
                vni: s.vni,
                cidr,
                gateway,
                pool,
                enable_dhcp: s.enable_dhcp,
            },
        ),
    }
}

/// Builds a subnet from its description.
pub fn subnet_from_spec(s: &SubnetSpec) -> (r: Result<Subnet, Error>)
    ensures
        match r {
            Ok(n) => subnet_of(s@) == Ok::<SubnetView, Seq<char>>(n@),
            Err(e) => subnet_of(s@) == Err::<SubnetView, Seq<char>>(e@),
        },
{
    let cidr = match parse_subnet_cidr(s.cidr.as_str()) {
        Some(c) => c,
        None => {
            return Err(
                caused(
                    quoted_error("invalid cidr ", s.cidr.as_str()),
                    cidr_fault_text(looks_v6(s.cidr.as_str())),
                ),
            );
        },
    };
    let gateway = match &s.gateway {
        Some(g) => match IpAddr::parse(g.as_str()) {
            Some(a) => Some(a),
            None => {
                return Err(quoted_error("invalid gateway ", g.as_str()));
            },
        },
        None => None,
    };
    let pool = match (&s.pool_start, &s.pool_end) {
        (Some(a), Some(b)) => {
            let start = match IpAddr::parse(a.as_str()) {
                Some(x) => x,
                None => {
                    return Err(quoted_error("invalid pool start ", a.as_str()));
                },
            };
            let end = match IpAddr::parse(b.as_str()) {
                Some(y) => y,
                None => {
                    return Err(quoted_error("invalid pool end ", b.as_str()));
                },
            };
            Some(AllocRange { start, end })
        },
        (None, None) => None,
        _ => {
            let mut e = quoted_error("subnet ", s.id.as_str());
            e.message.append(": pool requires both start and end");
            return Err(e);
        },
    };
    Ok(
        Subnet {
            id: s.id.clone(),
            vni: s.vni,
            cidr,
            gateway,
            pool,
            enable_dhcp: s.enable_dhcp,
        },
    )
}

// ---------------------------------------------------------------------------
// Applying a request
// ---------------------------------------------------------------------------

/// The response to an operation without a result.
pub open spec fn done_or<T>(r: Result<T, Seq<char>>) -> TopoResponseView {
    match r {
        Ok(_) => TopoResponseView::ok(),
        Err(e) => TopoResponseView::err(e),
    }
}

/// The response to an operation that gives a port.
pub open spec fn port_or(r: Result<PortView, Seq<char>>) -> TopoResponseView {
    match r {
        Ok(p) => TopoResponseView::ok_port(port_record_of(p)),
        Err(e) => TopoResponseView::err(e),
    }
}

/// The address that text writes, with the text of the failure.
pub open spec fn ip_or(s: Seq<char>, label: Seq<char>) -> Result<IpAddr, Seq<char>> {
    match ip_of(s) {
        Some(a) => Ok(a),
        None => Err(quoted(label, s)),
    }
}

/// Whether applying `req`, one that is not about addresses, to the fabric `t` leads to the fabric
/// `after` and to `out`.
pub open spec fn fabric_applies(
    t: TopologyView,
    req: TopoRequestView,
    after: TopologyView,
    out: TopoResponseView,
) -> bool {
    match req {
        TopoRequestView::AddHost(s) => match host_of(s) {
            Ok(h) => after == t.add_host(h) && out == TopoResponseView::ok(),
            Err(e) => after == t && out == TopoResponseView::err(e),
        },
        TopoRequestView::AddNetwork(s) => match network_of(s) {
            Ok(n) => after == t.add_network(n).0 && out == done_or(t.add_network(n).1),
            Err(e) => after == t && out == TopoResponseView::err(e),
        },
        TopoRequestView::CreatePort { vni, host, tap, ip, policy } => {
            let requested = match ip {
                None => Ok::<Option<Ipv4Addr>, Seq<char>>(None),
                Some(s) => match ipv4_of(s) {
                    Some(a) => Ok(Some(a)),
                    None => Err(quoted("invalid ip "@, s)),
                },
            };
            match requested {
                Ok(a) => {
                    let step = t.create_port(vni, host, tap, a, policy, None);
                    after == step.0 && out == port_or(step.1)
                },
                Err(e) => after == t && out == TopoResponseView::err(e),
            }
        },
        TopoRequestView::RemovePort { id } => after == t.remove_port(id) && out
            == TopoResponseView::ok(),
        TopoRequestView::MigratePort { id, host, tap } => {
            let step = t.migrate_port(id, host, tap);
            after == step.0 && out == port_or(step.1)
        },
        TopoRequestView::RemoveHost { id } => {
            let step = t.remove_host(id);
            after == step.0 && out == done_or(step.1)
        },
        TopoRequestView::RemoveNetwork { vni } => {
            let step = t.remove_network(vni);
            after == step.0 && out == done_or(step.1)
        },
        TopoRequestView::AddSecurityGroup(s) => exists|r: Result<(), Seq<char>>| #[trigger]
            t.add_security_group(group_of(s), after, r) && out == done_or(r),
        TopoRequestView::RemoveSecurityGroup { name } => {
            let step = t.remove_security_group(name);
            after == step.0 && out == done_or(step.1)
        },
        TopoRequestView::SetPortSecurityGroup { port_id, group } => {
            let step = t.set_port_security_group(port_id, group);
            after == step.0 && out == port_or(step.1)
        },
        _ => false,
    }
}

/// Whether a request is about subnets, their addresses or floating addresses.
pub open spec fn about_addresses(req: TopoRequestView) -> bool {
    match req {
        TopoRequestView::AddSubnet(_) => true,
        TopoRequestView::RemoveSubnet { .. } => true,
        TopoRequestView::BindPortSubnet { .. } => true,
        TopoRequestView::UnbindPortAddress { .. } => true,
        TopoRequestView::AllocateAddress { .. } => true,
        TopoRequestView::ReleaseAddress { .. } => true,
        TopoRequestView::AllocateFloatingIp { .. } => true,
        TopoRequestView::AssociateFloatingIp { .. } => true,
        TopoRequestView::DisassociateFloatingIp { .. } => true,
        TopoRequestView::ReleaseFloatingIp { .. } => true,
        _ => false,
    }
}

/// The response to an operation that gives an address.
pub open spec fn addr_or(r: Result<IpAddr, Seq<char>>) -> TopoResponseView {
    match r {
        Ok(a) => TopoResponseView::ok_addr(ip_text(a)),
        Err(e) => TopoResponseView::err(e),
    }
}

/// The response to an operation that gives a floating address.
pub open spec fn floating_or(r: Result<FloatingIpView, Seq<char>>) -> TopoResponseView {
    match r {
        Ok(f) => TopoResponseView::ok_floating(fip_record_of(f)),
        Err(e) => TopoResponseView::err(e),
    }
}

/// The response to an operation that takes something back.
pub open spec fn released_or(released: bool, otherwise: Seq<char>) -> TopoResponseView {
    if released {
        TopoResponseView::ok()
    } else {
        TopoResponseView::err(otherwise)
    }
}

/// The network of the port with an id.
pub open spec fn network_of_port(t: TopologyView, id: Seq<char>) -> Option<u32> {
    let i = first_index(t.ports, with_id(id));
    if i < t.ports.len() {
        Some(t.ports[i].vni)
    } else {
        None
    }
}

/// The address book after a request about addresses, and the response.
pub open spec fn address_step(t: TopologyView, b: AddressBookView, req: TopoRequestView) -> (
    AddressBookView,
    TopoResponseView,
) {
    match req {
        TopoRequestView::AddSubnet(s) => match subnet_of(s) {
            Ok(n) => {
                let step = b.add_subnet(n, t.networks.dom().contains(n.vni));
                (step.0, done_or(step.1))
            },
            Err(e) => (b, TopoResponseView::err(e)),
        },
        TopoRequestView::RemoveSubnet { id } => {
            let step = b.remove_subnet(id);
            (step.0, done_or(step.1))
        },
        TopoRequestView::BindPortSubnet { port_id, subnet_id, ip } => match opt_ip_of(ip) {
            Ok(ip) => {
                let step = b.bind(port_id, network_of_port(t, port_id), subnet_id, ip);
                (step.0, addr_or(step.1))
            },
            Err(e) => (b, TopoResponseView::err(e)),
        },
        TopoRequestView::UnbindPortAddress { port_id, subnet_id, addr } => match ip_or(
            addr,
            "invalid addr "@,
        ) {
            Ok(a) => {
                let step = b.take_back(subnet_id, a, HolderView::Port(port_id));
                (
                    step.0,
                    released_or(
                        step.1,
                        "address "@ + addr + " was not bound to port "@ + debug_text(port_id),
                    ),
                )
            },
            Err(e) => (b, TopoResponseView::err(e)),
        },
        TopoRequestView::AllocateAddress { subnet_id, ip } => match opt_ip_of(ip) {
            Ok(ip) => {
                let step = b.allocate(subnet_id, ip);
                (step.0, addr_or(step.1))
            },
            Err(e) => (b, TopoResponseView::err(e)),
        },
        TopoRequestView::ReleaseAddress { subnet_id, addr } => match ip_or(
            addr,
            "invalid addr "@,
        ) {
            Ok(a) => {
                let step = b.take_back(subnet_id, a, HolderView::Standalone);
                (
                    step.0,
                    released_or(
                        step.1,
                        "address "@ + addr + " was not allocated in subnet "@ + debug_text(
                            subnet_id,
                        ),
                    ),
                )
            },
            Err(e) => (b, TopoResponseView::err(e)),
        },
        TopoRequestView::AllocateFloatingIp { subnet_id, ip } => match opt_ip_of(ip) {
            Ok(ip) => {
                let step = b.allocate_floating(subnet_id, ip);
                (step.0, floating_or(step.1))
            },
            Err(e) => (b, TopoResponseView::err(e)),
        },
        TopoRequestView::AssociateFloatingIp { id, port_id, fixed_addr } => match ip_or(
            fixed_addr,
            "invalid fixed addr "@,
        ) {
            Ok(fixed) => {
                let step = b.associate(id, port_id, fixed);
                (step.0, floating_or(step.1))
            },
            Err(e) => (b, TopoResponseView::err(e)),
        },
        TopoRequestView::DisassociateFloatingIp { id } => {
            let step = b.disassociate(id);
            (step.0, floating_or(step.1))
        },
        TopoRequestView::ReleaseFloatingIp { id } => {
            let step = b.release_floating(id);
            (
                step.0,
                match step.1 {
                    Ok(released) => released_or(released, quoted("no floating ip "@, id)),
                    Err(e) => TopoResponseView::err(e),
                },
            )
        },
        _ => (b, TopoResponseView::ok()),
    }
}

/// Whether a request is to remove a network that no port is on any more, but that still has subnets.
pub open spec fn leaves_subnets(t: TopologyView, b: AddressBookView, req: TopoRequestView) -> bool {
    match req {
        TopoRequestView::RemoveNetwork { vni } => t.networks.dom().contains(vni) && b.serves(vni)
            && t.remove_network(vni).1 is Ok,
        _ => false,
    }
}

/// Why a network that still has subnets is not removed.
pub open spec fn subnets_left_text(req: TopoRequestView) -> Seq<char> {
    match req {
        TopoRequestView::RemoveNetwork { vni } => "network vni "@ + decimal(vni as nat)
            + " still has subnets"@,
        _ => Seq::empty(),
    }
}

/// Whether applying `req` to the fabric `t` and the address book `b` leads to the fabric `after`,
/// to the address book `after_b` and to `out`. A request about addresses leaves the fabric as it
/// is, and any other the address book. The subnets must go before the network that they belong to.
pub open spec fn applies(
    t: TopologyView,
    b: AddressBookView,
    req: TopoRequestView,
    after: TopologyView,
    after_b: AddressBookView,
    out: TopoResponseView,
) -> bool {
    if about_addresses(req) {
        after == t && (after_b, out) == address_step(t, b, req)
    } else if leaves_subnets(t, b, req) {
        after == t && after_b == b && out == TopoResponseView::err(subnets_left_text(req))
    } else {
        after_b == b && fabric_applies(t, req, after, out)
    }
}

fn done(r: Result<(), Error>) -> (out: TopoResponse)
    ensures
        out@ == done_or(crate::error::result_view(r)),
{
    match r {
        Ok(_) => TopoResponse::ok(),
        Err(e) => TopoResponse::err(e),
    }
}

fn done_bool(r: Result<bool, Error>) -> (out: TopoResponse)
    ensures
        out@ == done_or(crate::error::result_view(r)),
{
    match r {
        Ok(_) => TopoResponse::ok(),
        Err(e) => TopoResponse::err(e),
    }
}

fn with_port(r: Result<Port, Error>) -> (out: TopoResponse)
    ensures
        out@ == port_or(crate::error::result_view(r)),
{
    match r {
        Ok(p) => TopoResponse::ok_port(port_record(&p)),
        Err(e) => TopoResponse::err(e),
    }
}

fn read_ip(s: &String, label: &str) -> (r: Result<IpAddr, Error>)
    ensures
        match r {
            Ok(a) => ip_or(s@, label@) == Ok::<IpAddr, Seq<char>>(a),
            Err(e) => ip_or(s@, label@) == Err::<IpAddr, Seq<char>>(e@),
        },
{
    match IpAddr::parse(s.as_str()) {
        Some(a) => Ok(a),
        None => Err(quoted_error(label, s.as_str())),
    }
}

fn with_address(r: Result<IpAddr, Error>) -> (out: TopoResponse)
    ensures
        out@ == match r {
            Ok(a) => addr_or(Ok(a)),
            Err(e) => addr_or(Err(e@)),
        },
{
    match r {
        Ok(a) => TopoResponse::ok_addr(a.to_string()),
        Err(e) => TopoResponse::err(e),
    }
}

fn with_floating(r: Result<FloatingIp, Error>) -> (out: TopoResponse)
    ensures
        out@ == floating_or(crate::error::result_view(r)),
{
    match r {
        Ok(f) => TopoResponse::ok_floating(fip_record(&f)),
        Err(e) => TopoResponse::err(e),
    }
}

fn not_held(addr: &str, what: &str, id: &str) -> (r: TopoResponse)
    ensures
        r@ == TopoResponseView::err("address "@ + addr@ + what@ + debug_text(id@)),
{
    let mut s = String::from_str("address ");
    s.append(addr);
    s.append(what);
    s.append(debug_str(id).as_str());
    TopoResponse::err(Error::new(s))
}

/// Applies a request about addresses.
#[verifier::rlimit(80)]
#[verifier::spinoff_prover]
fn apply_to_book(topo: &Topology, book: &mut AddressBook, req: &TopoRequest) -> (r: TopoResponse)
    requires
        topo.inv(),
        old(book).inv(),
        about_addresses(req@),
    ensures
        final(book).inv(),
        (final(book)@, r@) == address_step(topo@, old(book)@, req@),
{
    match req {
        TopoRequest::AddSubnet(s) => match subnet_from_spec(s) {
            Ok(n) => {
                let known: bool = topo.network(n.vni).is_some();
                done(book.add_subnet(n, known))
            },
            Err(e) => TopoResponse::err(e),
        },
        TopoRequest::RemoveSubnet { id } => done_bool(book.remove_subnet(id.as_str())),
        TopoRequest::BindPortSubnet { port_id, subnet_id, ip } => match parse_opt_ip(ip) {
            Ok(ip) => {
                let vni: Option<u32> = match topo.port(port_id.as_str()) {
                    Some(p) => Some(p.vni),
                    None => None,
                };
                with_address(
                    book.bind_port_subnet(port_id.as_str(), vni, subnet_id.as_str(), ip),
                )
            },
            Err(e) => TopoResponse::err(e),
        },
        TopoRequest::UnbindPortAddress { port_id, subnet_id, addr } => match read_ip(
            addr,
            "invalid addr ",
        ) {
            Ok(a) => if book.unbind_port_address(port_id.as_str(), subnet_id.as_str(), a) {
                TopoResponse::ok()
            } else {
                not_held(addr.as_str(), " was not bound to port ", port_id.as_str())
            },
            Err(e) => TopoResponse::err(e),
        },
        TopoRequest::AllocateAddress { subnet_id, ip } => match parse_opt_ip(ip) {
            Ok(ip) => with_address(book.allocate(subnet_id.as_str(), ip)),
            Err(e) => TopoResponse::err(e),
        },
        TopoRequest::ReleaseAddress { subnet_id, addr } => match read_ip(addr, "invalid addr ") {
            Ok(a) => if book.release(subnet_id.as_str(), a) {
                TopoResponse::ok()
            } else {
                not_held(addr.as_str(), " was not allocated in subnet ", subnet_id.as_str())
            },
            Err(e) => TopoResponse::err(e),
        },
        TopoRequest::AllocateFloatingIp { subnet_id, ip } => match parse_opt_ip(ip) {
            Ok(ip) => with_floating(book.allocate_floating_ip(subnet_id.as_str(), ip)),
            Err(e) => TopoResponse::err(e),
        },
        TopoRequest::AssociateFloatingIp { id, port_id, fixed_addr } => match read_ip(
            fixed_addr,
            "invalid fixed addr ",
        ) {
            Ok(fixed) => with_floating(
                book.associate_floating_ip(id.as_str(), port_id.as_str(), fixed),
            ),
            Err(e) => TopoResponse::err(e),
        },
        TopoRequest::DisassociateFloatingIp { id } => with_floating(
            book.disassociate_floating_ip(id.as_str()),
        ),
        TopoRequest::ReleaseFloatingIp { id } => match book.release_floating_ip(id.as_str()) {
            Ok(released) => if released {
                TopoResponse::ok()
            } else {
                TopoResponse::err(quoted_error("no floating ip ", id.as_str()))
            },
            Err(e) => TopoResponse::err(e),
        },
        _ => TopoResponse::ok(),
    }
}

/// Applies one request to the fabric and the address book. The outcome is a function of these and
/// the request, so every replica that applies the same requests in the same order has the same
/// fabric and the same address book.
pub fn apply(topo: &mut Topology, book: &mut AddressBook, req: &TopoRequest) -> (r: TopoResponse)
    requires
        old(topo).inv(),
        old(book).inv(),
    ensures
        final(topo).inv(),
        final(book).inv(),
        applies(old(topo)@, old(book)@, req@, final(topo)@, final(book)@, r@),
{
    match req {
        TopoRequest::AddHost(s) => match host_from_spec(s) {
            Ok(h) => {
                topo.add_host(h);
                TopoResponse::ok()
            },
            Err(e) => TopoResponse::err(e),
        },
        TopoRequest::AddNetwork(s) => match network_from_spec(s) {
            Ok(n) => done(topo.add_network(n)),
            Err(e) => TopoResponse::err(e),
        },
        TopoRequest::CreatePort { vni, host, tap, ip, policy } => {
            let requested = match ip {
                Some(s) => match Ipv4Addr::parse(s.as_str()) {
                    Some(a) => Some(a),
                    None => {
                        return TopoResponse::err(quoted_error("invalid ip ", s.as_str()));
                    },
                },
                None => None,
            };
            with_port(topo.create_port(*vni, host.as_str(), tap.as_str(), requested, *policy))
        },
        TopoRequest::RemovePort { id } => {
            let existed = topo.remove_port(id.as_str());
            TopoResponse::ok()
        },
        TopoRequest::MigratePort { id, host, tap } => with_port(topo.migrate_port(
            id.as_str(),
            host.as_str(),
            tap.as_str(),
        )),
        TopoRequest::RemoveHost { id } => done_bool(topo.remove_host(id.as_str())),
        TopoRequest::RemoveNetwork { vni } => {
            let vacant: bool = first_port_on_network(topo.ports(), *vni).is_none();
            if vacant && topo.network(*vni).is_some() && book.has_subnet_of(*vni) {
                let mut m = String::from_str("network vni ");
                push_decimal(&mut m, *vni as u64);
                m.append(" still has subnets");
                return TopoResponse::err(Error::new(m));
            }
            done_bool(topo.remove_network(*vni))
        },
        TopoRequest::AddSecurityGroup(s) => {
            let outcome = topo.add_security_group(sg_from_spec(s));
            done(outcome)
        },
        TopoRequest::RemoveSecurityGroup { name } =>
            done_bool(topo.remove_security_group(name.as_str())),
        TopoRequest::SetPortSecurityGroup { port_id, group } => {
            let group = match group {
                Some(g) => Some(g.as_str()),
                None => None,
            };
            with_port(topo.set_port_security_group(port_id.as_str(), group))
        },
        _ => apply_to_book(topo, book, req),
    }
}

proof fn fabric_keeps_wf(
    t: TopologyView,
    req: TopoRequestView,
    after: TopologyView,
    out: TopoResponseView,
)
    requires
        t.wf(),
        fabric_applies(t, req, after, out),
    ensures
        after.wf(),
{
    match req {
        TopoRequestView::AddHost(s) => {
            if let Ok(h) = host_of(s) {
                crate::fabric_laws::add_host_keeps_wf(t, h);
            }
        },
        TopoRequestView::AddNetwork(s) => {
            if let Ok(n) = network_of(s) {
                crate::addr::cidr_v4_valid(s.subnet);
                crate::fabric_laws::add_network_keeps_wf(t, n);
            }
        },
        TopoRequestView::CreatePort { vni, host, tap, ip, policy } => {
            let requested = match ip {
                None => None,
                Some(s) => ipv4_of(s),
            };
            crate::fabric_laws::create_port_keeps_wf(t, vni, host, tap, requested, policy, None);
        },
        TopoRequestView::RemovePort { id } => {
            crate::fabric_laws::remove_port_keeps_wf(t, id);
        },
        TopoRequestView::MigratePort { id, host, tap } => {
            crate::fabric_laws::migrate_port_keeps_wf(t, id, host, tap);
        },
        TopoRequestView::RemoveHost { id } => {
            crate::fabric_laws::remove_host_keeps_wf(t, id);
        },
        TopoRequestView::RemoveNetwork { vni } => {
            crate::fabric_laws::remove_network_keeps_wf(t, vni);
        },
        TopoRequestView::AddSecurityGroup(s) => {
            let r = choose|r: Result<(), Seq<char>>| #[trigger]
                t.add_security_group(group_of(s), after, r) && out == done_or(r);
            crate::fabric_laws::add_security_group_keeps_wf(t, group_of(s), after, r);
        },
        TopoRequestView::RemoveSecurityGroup { name } => {
            crate::fabric_laws::remove_security_group_keeps_wf(t, name);
        },
        TopoRequestView::SetPortSecurityGroup { port_id, group } => {
            crate::fabric_laws::set_port_security_group_keeps_wf(t, port_id, group);
        },
        _ => {},
    }
}

proof fn book_keeps_wf(t: TopologyView, b: AddressBookView, req: TopoRequestView)
    requires
        b.wf(),
        about_addresses(req),
    ensures
        address_step(t, b, req).0.wf(),
{
    match req {
        TopoRequestView::AddSubnet(s) => {
            if let Ok(n) = subnet_of(s) {
                crate::ipam::add_subnet_keeps_wf(b, n, t.networks.dom().contains(n.vni));
            }
        },
        TopoRequestView::RemoveSubnet { id } => {
            crate::ipam::remove_subnet_keeps_wf(b, id);
        },
        TopoRequestView::BindPortSubnet { port_id, subnet_id, ip } => {
            if let Ok(a) = opt_ip_of(ip) {
                crate::ipam::lease_keeps_wf(b, subnet_id, a, HolderView::Port(port_id));
            }
        },
        TopoRequestView::UnbindPortAddress { port_id, subnet_id, addr } => {
            if let Ok(a) = ip_or(addr, "invalid addr "@) {
                crate::ipam::take_back_keeps_wf(b, subnet_id, a, HolderView::Port(port_id));
            }
        },
        TopoRequestView::AllocateAddress { subnet_id, ip } => {
            if let Ok(a) = opt_ip_of(ip) {
                crate::ipam::lease_keeps_wf(b, subnet_id, a, HolderView::Standalone);
            }
        },
        TopoRequestView::ReleaseAddress { subnet_id, addr } => {
            if let Ok(a) = ip_or(addr, "invalid addr "@) {
                crate::ipam::take_back_keeps_wf(b, subnet_id, a, HolderView::Standalone);
            }
        },
        TopoRequestView::AllocateFloatingIp { subnet_id, ip } => {
            if let Ok(a) = opt_ip_of(ip) {
                crate::ipam::allocate_floating_keeps_wf(b, subnet_id, a);
            }
        },
        TopoRequestView::AssociateFloatingIp { id, port_id, fixed_addr } => {
            if let Ok(a) = ip_or(fixed_addr, "invalid fixed addr "@) {
                crate::ipam::associate_keeps_wf(b, id, port_id, a);
            }
        },
        TopoRequestView::DisassociateFloatingIp { id } => {
            crate::ipam::disassociate_keeps_wf(b, id);
        },
        TopoRequestView::ReleaseFloatingIp { id } => {
            crate::ipam::release_floating_keeps_wf(b, id);
        },
        _ => {},
    }
}

/// Applying a request keeps the fabric and the address book well formed.
pub proof fn apply_keeps_wf(
    t: TopologyView,
    b: AddressBookView,
    req: TopoRequestView,
    after: TopologyView,
    after_b: AddressBookView,
    out: TopoResponseView,
)
    requires
        t.wf(),
        b.wf(),
        applies(t, b, req, after, after_b, out),
    ensures
        after.wf(),
        after_b.wf(),
{
    if about_addresses(req) {
        book_keeps_wf(t, b, req);
    } else if !leaves_subnets(t, b, req) {
        fabric_keeps_wf(t, req, after, out);
    }
}

/// Every subnet belongs to a network of the fabric.
pub open spec fn subnets_have_networks(t: TopologyView, b: AddressBookView) -> bool {
    forall|k: Seq<char>| #[trigger]
        b.subnets.dom().contains(k) ==> t.networks.dom().contains(b.subnets[k].vni)
}

/// Applying a request keeps every subnet in a network of the fabric.
pub proof fn apply_keeps_networks_of_subnets(
    t: TopologyView,
    b: AddressBookView,
    req: TopoRequestView,
    after: TopologyView,
    after_b: AddressBookView,
    out: TopoResponseView,
)
    requires
        subnets_have_networks(t, b),
        applies(t, b, req, after, after_b, out),
    ensures
        subnets_have_networks(after, after_b),
{
    match req {
        TopoRequestView::AddSecurityGroup(s) => {
            let r = choose|r: Result<(), Seq<char>>| #[trigger]
                t.add_security_group(group_of(s), after, r) && out == done_or(r);
            assert(after.networks == t.networks);
        },
        TopoRequestView::RemoveNetwork { vni } => {
            assert forall|k: Seq<char>| #[trigger]
                after_b.subnets.dom().contains(k) implies after.networks.dom().contains(
                after_b.subnets[k].vni,
            ) by {
                assert(b.subnets.dom().contains(k));
            }
        },
        _ => {},
    }
}

/// A request that is answered with a failure changes nothing.
pub proof fn refused_request_changes_nothing(
    t: TopologyView,
    b: AddressBookView,
    req: TopoRequestView,
    after: TopologyView,
    after_b: AddressBookView,
    r: TopoResponseView,
)
    requires
        applies(t, b, req, after, after_b, r),
        !r.ok,
    ensures
        after == t,
        after_b == b,
        r.error is Some,
        r.port is None && r.addr is None && r.floating is None,
{
}

proof fn fabrics_agree(
    t: TopologyView,
    req: TopoRequestView,
    after1: TopologyView,
    out1: TopoResponseView,
    after2: TopologyView,
    out2: TopoResponseView,
)
    requires
        t.groups_distinct(),
        fabric_applies(t, req, after1, out1),
        fabric_applies(t, req, after2, out2),
    ensures
        after1 == after2,
        out1 == out2,
{
    if let TopoRequestView::AddSecurityGroup(s) = req {
        let g = group_of(s);
        let r1 = choose|r: Result<(), Seq<char>>| #[trigger]
            t.add_security_group(g, after1, r) && out1 == done_or(r);
        let r2 = choose|r: Result<(), Seq<char>>| #[trigger]
            t.add_security_group(g, after2, r) && out2 == done_or(r);
        let pid = crate::orchestrator::policy_id_of(g.name);
        if g.name.len() > 0 && !t.security_groups.dom().contains(g.name) && t.has_group_of(pid) {
            let a = choose|name: Seq<char>| #[trigger]
                t.is_group_of(pid, name) && r1 == Err::<(), Seq<char>>(
                    crate::orchestrator::collision_text(g.name, name),
                );
            let b = choose|name: Seq<char>| #[trigger]
                t.is_group_of(pid, name) && r2 == Err::<(), Seq<char>>(
                    crate::orchestrator::collision_text(g.name, name),
                );
            assert(t.security_groups.dom().contains(a) && t.security_groups.dom().contains(b));
        }
    }
}

/// Two replicas with the same fabric and address book that apply the same request have the same
/// fabric and address book afterwards and give the same answer.
pub proof fn replicas_agree(
    t: TopologyView,
    b: AddressBookView,
    req: TopoRequestView,
    after1: (TopologyView, AddressBookView),
    out1: TopoResponseView,
    after2: (TopologyView, AddressBookView),
    out2: TopoResponseView,
)
    requires
        t.groups_distinct(),
        applies(t, b, req, after1.0, after1.1, out1),
        applies(t, b, req, after2.0, after2.1, out2),
    ensures
        after1 == after2,
        out1 == out2,
{
    if !about_addresses(req) && !leaves_subnets(t, b, req) {
        fabrics_agree(t, req, after1.0, out1, after2.0, out2);
    }
}

// ---------------------------------------------------------------------------
// Log entries
// ---------------------------------------------------------------------------

/// The position of an entry in the log, with the leader that proposed it.
#[derive(Clone, Copy, Debug, PartialEq, Eq, Structural)]
pub struct LogId {
    pub term: u64,
    pub node: NodeId,
    pub index: u64,
}

/// A vote for a leader.
#[derive(Clone, Copy, Debug, PartialEq, Eq, Structural)]
pub struct Vote {
    pub term: u64,
    pub node: NodeId,
    pub committed: bool,
}

/// The members of the cluster: the voters of each configuration, and where each member is reached.
#[derive(Debug, PartialEq, Eq)]
pub struct Membership {
    pub voters: Vec<Vec<NodeId>>,
    pub nodes: Vec<NodeId>,
    pub addrs: Vec<String>,
}

/// What a [`Membership`] holds.
#[verifier::ext_equal]
pub struct MembershipView {
    pub voters: Seq<Seq<NodeId>>,
    pub nodes: Seq<NodeId>,
    pub addrs: Seq<Seq<char>>,
}

impl View for Membership {
    type V = MembershipView;

    open spec fn view(&self) -> MembershipView {
        MembershipView {
            voters: views(self.voters@),
            nodes: self.nodes@,
            addrs: views(self.addrs@),
        }
    }
}

fn clone_ids(v: &Vec<NodeId>) -> (r: Vec<NodeId>)
    ensures
        r@ == v@,
{
    let mut r: Vec<NodeId> = Vec::new();
    for i in 0..v.len()
        invariant
            r@ == v@.take(i as int),
    {
        r.push(v[i]);
    }
    assert(v@.take(v@.len() as int) =~= v@);
    r
}

impl Clone for Membership {
    fn clone(&self) -> (r: Self)
        ensures
            r@ == self@,
    {
        let mut voters: Vec<Vec<NodeId>> = Vec::new();
        for i in 0..self.voters.len()
            invariant
                voters@.len() == i,
                forall|j: int| 0 <= j < i ==> voters@[j]@ == self.voters@[j]@,
        {
            voters.push(clone_ids(&self.voters[i]));
        }
        assert(views(voters@) =~= views(self.voters@));
        Membership {
            voters,
            nodes: clone_ids(&self.nodes),
            addrs: clone_strings(&self.addrs),
        }
    }
}

/// What a log entry carries.
#[derive(Debug, PartialEq, Eq)]
pub enum Payload {
    /// Nothing.
    Blank,
    /// A request.
    Normal(TopoRequest),
    /// A change of the cluster's members.
    Membership(Membership),
}

/// What a [`Payload`] holds.
pub enum PayloadView {
    Blank,
    Normal(TopoRequestView),
    Membership(MembershipView),
}

impl View for Payload {
    type V = PayloadView;

    open spec fn view(&self) -> PayloadView {
        match self {
            Payload::Blank => PayloadView::Blank,
            Payload::Normal(r) => PayloadView::Normal(r@),
            Payload::Membership(m) => PayloadView::Membership(m@),
        }
    }
}

impl Clone for Payload {
    fn clone(&self) -> (r: Self)
        ensures
            r@ == self@,
    {
        match self {
            Payload::Blank => Payload::Blank,
            Payload::Normal(r) => Payload::Normal(r.clone()),
            Payload::Membership(m) => Payload::Membership(m.clone()),
        }
    }
}

/// A log entry.
#[derive(Debug, PartialEq, Eq)]
pub struct Entry {
    pub log_id: LogId,
    pub payload: Payload,
}

/// What an [`Entry`] holds.
pub struct EntryView {
    pub log_id: LogId,
    pub payload: PayloadView,
}

impl View for Entry {
    type V = EntryView;

    open spec fn view(&self) -> EntryView {
        EntryView { log_id: self.log_id, payload: self.payload@ }
    }
}

impl Clone for Entry {
    fn clone(&self) -> (r: Self)
        ensures
            r@ == self@,
    {
        Entry { log_id: self.log_id, payload: self.payload.clone() }
    }
}

// ---------------------------------------------------------------------------
// The log
// ---------------------------------------------------------------------------

/// The log of a replica, with the vote and the markers that must outlive a restart.
#[derive(Debug, PartialEq, Eq)]
pub struct LogStore {
    entries: Vec<Entry>,
    last_purged: Option<LogId>,
    committed: Option<LogId>,
    vote: Option<Vote>,
}

/// What a [`LogStore`] holds: entries by index.
#[verifier::ext_equal]
pub struct LogView {
    pub entries: Map<u64, EntryView>,
    pub last_purged: Option<LogId>,
    pub committed: Option<LogId>,
    pub vote: Option<Vote>,
}

spec fn indices(s: Seq<Entry>) -> Seq<u64> {
    Seq::new(s.len(), |i: int| s[i].log_id.index)
}

spec fn ordered(s: Seq<Entry>) -> bool {
    forall|i: int, j: int|
        0 <= i < j < s.len() ==> (#[trigger] s[i]).log_id.index < (#[trigger] s[j]).log_id.index
}

impl View for LogStore {
    type V = LogView;

    closed spec fn view(&self) -> LogView {
        LogView {
            entries: keyed(indices(self.entries@), views(self.entries@)),
            last_purged: self.last_purged,
            committed: self.committed,
            vote: self.vote,
        }
    }
}

/// The map with the entries put in, in order.
pub open spec fn put_all(m: Map<u64, EntryView>, es: Seq<EntryView>) -> Map<u64, EntryView>
    decreases es.len(),
{
    if es.len() == 0 {
        m
    } else {
        put_all(m, es.drop_last()).insert(es.last().log_id.index, es.last())
    }
}

impl LogView {
    /// Every entry is under its own index.
    pub open spec fn indices_match(self) -> bool {
        forall|k: u64| #[trigger]
            self.entries.dom().contains(k) ==> self.entries[k].log_id.index == k
    }

    /// The log with the entries of the given indices alone.
    pub open spec fn only(self, keep: spec_fn(u64) -> bool) -> Map<u64, EntryView> {
        Map::new(|k: u64| self.entries.dom().contains(k) && keep(k), |k: u64| self.entries[k])
    }

    /// The position of the last entry, or of the last purged one where there is none.
    pub open spec fn is_last(self, last: Option<LogId>) -> bool {
        if exists|k: u64| self.entries.dom().contains(k) {
            exists|k: u64| #[trigger]
                self.entries.dom().contains(k) && last == Some(self.entries[k].log_id) && (forall|
                    j: u64,
                | #[trigger]
                    self.entries.dom().contains(j) ==> j <= k)
        } else {
            last == self.last_purged
        }
    }
}

impl LogStore {
    /// The entries are stored once each, by increasing index.
    pub closed spec fn inv(&self) -> bool {
        ordered(self.entries@)
    }

    /// Each entry stands under its own index.
    pub proof fn inv_indices(&self)
        requires
            self.inv(),
        ensures
            self@.indices_match(),
    {
        let ks = indices(self.entries@);
        keyed_domain(ks, views(self.entries@));
        assert forall|k: u64| #[trigger] self@.entries.dom().contains(k) implies
            self@.entries[k].log_id.index == k by {
            let i = choose|i: int| 0 <= i < ks.len() && ks[i] == k;
            keyed_at(ks, views(self.entries@), i);
        }
    }

    /// A log without entries that starts after `last_purged`.
    pub fn new(last_purged: Option<LogId>) -> (r: LogStore)
        ensures
            r.inv(),
            r@ == (LogView { entries: Map::empty(), last_purged, committed: None, vote: None }),
    {
        let r = LogStore { entries: Vec::new(), last_purged, committed: None, vote: None };
        assert(r@ =~= (LogView {
            entries: Map::empty(),
            last_purged,
            committed: None,
            vote: None,
        }));
        r
    }

    /// A log with the parts that an earlier run kept.
    pub fn resume(
        entries: Vec<Entry>,
        last_purged: Option<LogId>,
        committed: Option<LogId>,
        vote: Option<Vote>,
    ) -> (r: LogStore)
        ensures
            r.inv(),
            r@ == (LogView {
                entries: put_all(Map::empty(), views(entries@)),
                last_purged,
                committed,
                vote,
            }),
    {
        let mut r = LogStore { entries: Vec::new(), last_purged, committed, vote };
        assert(r@.entries =~= Map::empty());
        r.append(entries);
        r
    }

    /// The position of the last purged entry and of the last entry.
    pub fn get_log_state(&self) -> (r: (Option<LogId>, Option<LogId>))
        requires
            self.inv(),
        ensures
            r.0 == self@.last_purged,
            self@.is_last(r.1),
    {
        let n: usize = self.entries.len();
        let ghost ks = indices(self.entries@);
        proof {
            keyed_domain(ks, views(self.entries@));
        }
        if n > 0 {
            proof {
                let k = ks[n - 1];
                keyed_at(ks, views(self.entries@), n - 1);
                assert(self@.entries.dom().contains(k));
                assert forall|j: u64| #[trigger] self@.entries.dom().contains(j) implies j <= k by {
                    let i = choose|i: int| 0 <= i < ks.len() && ks[i] == j;
                    if i < n - 1 {
                        assert(self.entries@[i].log_id.index < self.entries@[n - 1].log_id.index);
                    }
                }
            }
            (self.last_purged, Some(self.entries[n - 1].log_id))
        } else {
            assert(forall|k: u64| !(#[trigger] self@.entries.dom().contains(k)));
            (self.last_purged, self.last_purged)
        }
    }

    /// Keeps the vote.
    pub fn save_vote(&mut self, vote: Vote)
        requires
            old(self).inv(),
        ensures
            final(self).inv(),
            final(self)@ == (LogView { vote: Some(vote), ..old(self)@ }),
    {
        self.vote = Some(vote);
    }

    /// The vote.
    pub fn read_vote(&self) -> (r: Option<Vote>)
        ensures
            r == self@.vote,
    {
        self.vote
    }

    /// Keeps how far the log is committed.
    pub fn save_committed(&mut self, committed: Option<LogId>)
        requires
            old(self).inv(),
        ensures
            final(self).inv(),
            final(self)@ == (LogView { committed, ..old(self)@ }),
    {
        self.committed = committed;
    }

    /// How far the log is committed.
    pub fn read_committed(&self) -> (r: Option<LogId>)
        ensures
            r == self@.committed,
    {
        self.committed
    }

    /// Puts one entry in, in place of one with the same index.
    fn put(&mut self, entry: Entry)
        requires
            old(self).inv(),
        ensures
            final(self).inv(),
            final(self)@ == (LogView {
                entries: old(self)@.entries.insert(entry.log_id.index, entry@),
                ..old(self)@
            }),
    {
        let ghost e = entry;
        let ghost index = entry.log_id.index;
        let ghost before = self.entries@;
        let ghost ks = indices(before);
        let ghost m = self@.entries.insert(index, entry@);
        proof {
            keyed_domain(ks, views(before));
            assert(distinct(ks));
        }
        let mut p: usize = self.entries.len();
        while p > 0 && self.entries[p - 1].log_id.index >= entry.log_id.index
            invariant
                p <= self.entries@.len(),
                self.entries@ == before,
                ordered(before),
                forall|j: int| p <= j < before.len() ==> (#[trigger] before[j]).log_id.index
                    >= entry.log_id.index,
            decreases p,
        {
            p -= 1;
        }
        assert forall|j: int| 0 <= j < p implies (#[trigger] before[j]).log_id.index < index by {
            if j < p - 1 {
                assert(before[j].log_id.index < before[p - 1].log_id.index);
            }
        }
        if p < self.entries.len() && self.entries[p].log_id.index == entry.log_id.index {
            self.entries[p] = entry;
            assert(self.entries@ == before.update(p as int, e));
        } else {
            assert forall|j: int| p <= j < before.len() implies (#[trigger] before[j]).log_id.index
                > index by {
                if j > p {
                    assert(before[p as int].log_id.index < before[j].log_id.index);
                }
            }
            self.entries.insert(p, entry);
            assert(self.entries@ == before.insert(p as int, e));
        }
        proof {
            let now = self.entries@;
            let ks2 = indices(now);
            let vs2 = views(now);
            assert(ordered(now));
            assert(now[p as int] == e);
            assert forall|i: int| 0 <= i < ks2.len() implies m.dom().contains(#[trigger] ks2[i])
                && m[ks2[i]] == vs2[i] by {
                if i != p {
                    let j = if i < p || now.len() == before.len() {
                        i
                    } else {
                        i - 1
                    };
                    assert(now[i] == before[j]);
                    keyed_at(ks, views(before), j);
                    if i < p {
                        assert(now[i].log_id.index < now[p as int].log_id.index);
                    } else {
                        assert(now[p as int].log_id.index < now[i].log_id.index);
                    }
                }
            }
            assert forall|k: u64| #[trigger] m.dom().contains(k) implies ks2.contains(k) by {
                if k == index {
                    assert(ks2[p as int] == k);
                } else {
                    let j = choose|j: int| 0 <= j < ks.len() && ks[j] == k;
                    let i = if j < p || now.len() == before.len() {
                        j
                    } else {
                        j + 1
                    };
                    assert(now[i] == before[j]);
                    assert(ks2[i] == k);
                }
            }
            assert(distinct(ks2)) by {
                assert forall|i: int, j: int| 0 <= i < j < ks2.len() implies ks2[i] != ks2[j] by {
                    assert(now[i].log_id.index < now[j].log_id.index);
                }
            }
            keyed_is(ks2, vs2, m);
        }
        assert(self@ =~= (LogView { entries: m, ..old(self)@ }));
    }

    /// Puts entries in, in order; each replaces one with the same index.
    pub fn append(&mut self, entries: Vec<Entry>)
        requires
            old(self).inv(),
        ensures
            final(self).inv(),
            final(self)@ == (LogView {
                entries: put_all(old(self)@.entries, views(entries@)),
                ..old(self)@
            }),
    {
        let ghost es = views(entries@);
        let ghost start = self@;
        assert(es.take(0) =~= Seq::empty());
        for i in 0..entries.len()
            invariant
                self.inv(),
                es == views(entries@),
                self@ == (LogView {
                    entries: put_all(start.entries, es.take(i as int)),
                    ..start
                }),
        {
            let entry = entries[i].clone();
            assert(es.take(i + 1).drop_last() =~= es.take(i as int));
            self.put(entry);
        }
        assert(es.take(entries@.len() as int) =~= es);
    }

    /// Drops every entry from the given index on.
    pub fn truncate(&mut self, index: u64)
        requires
            old(self).inv(),
        ensures
            final(self).inv(),
            final(self)@ == (LogView {
                entries: old(self)@.only(|k: u64| k < index),
                ..old(self)@
            }),
    {
        let ghost before = self.entries@;
        let ghost ks = indices(before);
        let ghost m = self@.only(|k: u64| k < index);
        proof {
            keyed_domain(ks, views(before));
            assert(distinct(ks));
        }
        let mut n: usize = self.entries.len();
        while n > 0 && self.entries[n - 1].log_id.index >= index
            invariant
                n <= self.entries@.len(),
                self.entries@ == before,
                forall|j: int| n <= j < before.len() ==> (#[trigger] before[j]).log_id.index
                    >= index,
            decreases n,
        {
            n -= 1;
        }
        self.entries.truncate(n);
        proof {
            let now = self.entries@;
            let ks2 = indices(now);
            let vs2 = views(now);
            assert forall|i: int| 0 <= i < ks2.len() implies m.dom().contains(#[trigger] ks2[i])
                && m[ks2[i]] == vs2[i] by {
                assert(now[i] == before[i]);
                keyed_at(ks, views(before), i);
                if i < n - 1 {
                    assert(before[i].log_id.index < before[n - 1].log_id.index);
                }
            }
            assert forall|k: u64| #[trigger] m.dom().contains(k) implies ks2.contains(k) by {
                let j = choose|j: int| 0 <= j < ks.len() && ks[j] == k;
                assert(before[j].log_id.index < index);
                assert(j < n);
                assert(ks2[j] == k);
            }
            assert forall|i: int, j: int| 0 <= i < j < now.len() implies (
            #[trigger] now[i]).log_id.index < (#[trigger] now[j]).log_id.index by {
                assert(now[i] == before[i] && now[j] == before[j]);
            }
            assert forall|i: int, j: int| 0 <= i < j < ks2.len() implies ks2[i] != ks2[j] by {
                assert(now[i].log_id.index < now[j].log_id.index);
            }
            keyed_is(ks2, vs2, m);
        }
        assert(self@ =~= (LogView { entries: m, ..old(self)@ }));
    }

    /// Drops every entry up to and with the given position, and remembers it.
    pub fn purge(&mut self, log_id: LogId)
        requires
            old(self).inv(),
        ensures
            final(self).inv(),
            final(self)@ == (LogView {
                entries: old(self)@.only(|k: u64| k > log_id.index),
                last_purged: Some(log_id),
                ..old(self)@
            }),
    {
        let ghost before = self.entries@;
        let ghost ks = indices(before);
        let ghost m = self@.only(|k: u64| k > log_id.index);
        proof {
            keyed_domain(ks, views(before));
            assert(distinct(ks));
        }
        self.last_purged = Some(log_id);
        let mut n: usize = self.entries.len();
        while n > 0 && self.entries[n - 1].log_id.index > log_id.index
            invariant
                n <= self.entries@.len(),
                self.entries@ == before,
                forall|j: int| n <= j < before.len() ==> (#[trigger] before[j]).log_id.index
                    > log_id.index,
            decreases n,
        {
            n -= 1;
        }
        let keep = self.entries.split_off(n);
        self.entries = keep;
        proof {
            let now = self.entries@;
            let ks2 = indices(now);
            let vs2 = views(now);
            assert(now =~= before.skip(n as int));
            assert forall|i: int| 0 <= i < ks2.len() implies m.dom().contains(#[trigger] ks2[i])
                && m[ks2[i]] == vs2[i] by {
                assert(now[i] == before[i + n]);
                keyed_at(ks, views(before), i + n);
            }
            assert forall|k: u64| #[trigger] m.dom().contains(k) implies ks2.contains(k) by {
                let j = choose|j: int| 0 <= j < ks.len() && ks[j] == k;
                if j < n {
                    if j < n - 1 {
                        assert(before[j].log_id.index < before[n - 1].log_id.index);
                    }
                    assert(false);
                }
                assert(now[j - n] == before[j]);
                assert(ks2[j - n] == k);
            }
            assert forall|i: int, j: int| 0 <= i < j < now.len() implies (
            #[trigger] now[i]).log_id.index < (#[trigger] now[j]).log_id.index by {
                assert(now[i] == before[i + n] && now[j] == before[j + n]);
            }
            assert forall|i: int, j: int| 0 <= i < j < ks2.len() implies ks2[i] != ks2[j] by {
                assert(now[i].log_id.index < now[j].log_id.index);
            }
            keyed_is(ks2, vs2, m);
        }
        assert(self@ =~= (LogView {
            entries: m,
            last_purged: Some(log_id),
            ..old(self)@
        }));
    }

    /// The entries with an index from `start` on and below `end`, by increasing index.
    pub fn try_get_log_entries(&self, start: u64, end: u64) -> (r: Vec<Entry>)
        requires
            self.inv(),
        ensures
            forall|i: int|
                0 <= i < r@.len() ==> {
                    let e = (#[trigger] r@[i])@;
                    &&& start <= e.log_id.index < end
                    &&& self@.entries.dom().contains(e.log_id.index)
                    &&& self@.entries[e.log_id.index] == e
                },
            forall|i: int, j: int|
                0 <= i < j < r@.len() ==> (#[trigger] r@[i])@.log_id.index < (
                #[trigger] r@[j])@.log_id.index,
            forall|k: u64| #[trigger]
                self@.entries.dom().contains(k) && start <= k < end ==> exists|i: int|
                    0 <= i < r@.len() && (#[trigger] r@[i])@.log_id.index == k,
    {
        let ghost ks = indices(self.entries@);
        proof {
            keyed_domain(ks, views(self.entries@));
            assert(distinct(ks));
        }
        let mut r: Vec<Entry> = Vec::new();
        for i in 0..self.entries.len()
            invariant
                self.inv(),
                ks == indices(self.entries@),
                distinct(ks),
                forall|j: int|
                    0 <= j < r@.len() ==> {
                        let e = (#[trigger] r@[j])@;
                        &&& start <= e.log_id.index < end
                        &&& self@.entries.dom().contains(e.log_id.index)
                        &&& self@.entries[e.log_id.index] == e
                        &&& i == self.entries@.len() || e.log_id.index
                            < self.entries@[i as int].log_id.index
                    },
                forall|a: int, b: int|
                    0 <= a < b < r@.len() ==> (#[trigger] r@[a])@.log_id.index < (
                    #[trigger] r@[b])@.log_id.index,
                forall|j: int|
                    0 <= j < i && start <= (#[trigger] self.entries@[j]).log_id.index < end
                        ==> exists|k: int|
                        0 <= k < r@.len() && (#[trigger] r@[k])@.log_id.index
                            == self.entries@[j].log_id.index,
        {
            let ghost before = r@;
            let index: u64 = self.entries[i].log_id.index;
            if start <= index && index < end {
                proof {
                    keyed_at(ks, views(self.entries@), i as int);
                }
                r.push(self.entries[i].clone());
                assert(r@[before.len() as int]@.log_id.index
                    == self.entries@[i as int].log_id.index);
            }
            assert forall|j: int|
                0 <= j < i + 1 && start <= (#[trigger] self.entries@[j]).log_id.index
                    < end implies exists|k: int|
                0 <= k < r@.len() && (#[trigger] r@[k])@.log_id.index
                    == self.entries@[j].log_id.index by {
                if j < i {
                    let k = choose|k: int|
                        0 <= k < before.len() && (#[trigger] before[k])@.log_id.index
                            == self.entries@[j].log_id.index;
                    assert(r@[k] == before[k]);
                } else {
                    assert(r@[before.len() as int]@.log_id.index == self.entries@[j].log_id.index);
                }
            }
        }
        assert forall|k: u64| #[trigger]
            self@.entries.dom().contains(k) && start <= k < end implies exists|i: int|
            0 <= i < r@.len() && (#[trigger] r@[i])@.log_id.index == k by {
            let j = choose|j: int| 0 <= j < ks.len() && ks[j] == k;
            assert(self.entries@[j].log_id.index == k);
        }
        r
    }
}

/// The last of the entries appended is in the log, and entries with other indices are untouched.
pub proof fn appended_entries_are_kept(m: Map<u64, EntryView>, es: Seq<EntryView>)
    ensures
        forall|k: u64| #[trigger]
            m.dom().contains(k) && (forall|i: int|
                0 <= i < es.len() ==> (#[trigger] es[i]).log_id.index != k) ==> put_all(
                m,
                es,
            ).dom().contains(k) && put_all(m, es)[k] == m[k],
        forall|i: int|
            0 <= i < es.len() && (forall|j: int|
                i < j < es.len() ==> (#[trigger] es[j]).log_id.index != es[i].log_id.index)
                ==> put_all(m, es).dom().contains((#[trigger] es[i]).log_id.index) && put_all(
                m,
                es,
            )[es[i].log_id.index] == es[i],
    decreases es.len(),
{
    if es.len() > 0 {
        let t = es.drop_last();
        appended_entries_are_kept(m, t);
        let n = es.len() - 1;
        assert forall|k: u64| #[trigger]
            m.dom().contains(k) && (forall|i: int|
                0 <= i < es.len() ==> (#[trigger] es[i]).log_id.index != k) implies put_all(
            m,
            es,
        ).dom().contains(k) && put_all(m, es)[k] == m[k] by {
            assert(es[n].log_id.index != k);
            assert forall|i: int| 0 <= i < t.len() implies (#[trigger] t[i]).log_id.index != k by {
                assert(t[i] == es[i]);
            }
        }
        assert forall|i: int|
            0 <= i < es.len() && (forall|j: int|
                i < j < es.len() ==> (#[trigger] es[j]).log_id.index
                    != es[i].log_id.index) implies put_all(m, es).dom().contains(
            (#[trigger] es[i]).log_id.index,
        ) && put_all(m, es)[es[i].log_id.index] == es[i] by {
            if i < n {
                assert(t[i] == es[i]);
                assert(es[n].log_id.index != es[i].log_id.index);
                assert forall|j: int| i < j < t.len() implies (#[trigger] t[j]).log_id.index
                    != t[i].log_id.index by {
                    assert(t[j] == es[j]);
                }
            }
        }
    }
}

// ---------------------------------------------------------------------------
// The state machine
// ---------------------------------------------------------------------------

/// The members, with the entry that set them.
#[derive(Debug, PartialEq, Eq)]
pub struct StoredMembership {
    pub log_id: Option<LogId>,
    pub membership: Membership,
}

/// What a [`StoredMembership`] holds.
#[verifier::ext_equal]
pub struct StoredMembershipView {
    pub log_id: Option<LogId>,
    pub membership: MembershipView,
}

impl View for StoredMembership {
    type V = StoredMembershipView;

    open spec fn view(&self) -> StoredMembershipView {
        StoredMembershipView { log_id: self.log_id, membership: self.membership@ }
    }
}

impl Clone for StoredMembership {
    fn clone(&self) -> (r: Self)
        ensures
            r@ == self@,
    {
        StoredMembership { log_id: self.log_id, membership: self.membership.clone() }
    }
}

/// No members.
pub open spec fn no_members() -> StoredMembershipView {
    StoredMembershipView {
        log_id: None,
        membership: MembershipView {
            voters: Seq::empty(),
            nodes: Seq::empty(),
            addrs: Seq::empty(),
        },
    }
}

/// What a snapshot is about: the last entry it covers, the members at that point, and its id.
#[derive(Debug, PartialEq, Eq)]
pub struct SnapshotMeta {
    pub last_log_id: Option<LogId>,
    pub last_membership: StoredMembership,
    pub snapshot_id: String,
}

/// What a [`SnapshotMeta`] holds.
#[verifier::ext_equal]
pub struct SnapshotMetaView {
    pub last_log_id: Option<LogId>,
    pub last_membership: StoredMembershipView,
    pub snapshot_id: Seq<char>,
}

impl View for SnapshotMeta {
    type V = SnapshotMetaView;

    open spec fn view(&self) -> SnapshotMetaView {
        SnapshotMetaView {
            last_log_id: self.last_log_id,
            last_membership: self.last_membership@,
            snapshot_id: self.snapshot_id@,
        }
    }
}

/// A snapshot: what it is about, and the fabric in its serialized form.
#[derive(Debug, PartialEq, Eq)]
pub struct StoredSnapshot {
    pub meta: SnapshotMeta,
    pub data: Vec<u8>,
}

/// What a [`StoredSnapshot`] holds.
#[verifier::ext_equal]
pub struct StoredSnapshotView {
    pub meta: SnapshotMetaView,
    pub data: Seq<u8>,
}

impl View for StoredSnapshot {
    type V = StoredSnapshotView;

    open spec fn view(&self) -> StoredSnapshotView {
        StoredSnapshotView { meta: self.meta@, data: self.data@ }
    }
}

/// The replicated state: the fabric, the address book, and how far the log has been applied to
/// them.
pub struct StateMachineStore {
    last_applied: Option<LogId>,
    last_membership: StoredMembership,
    topology: Topology,
    addresses: AddressBook,
    current_snapshot: Option<StoredSnapshot>,
    snapshot_idx: u64,
    changed: u64,
}

/// What a [`StateMachineStore`] holds.
#[verifier::ext_equal]
pub struct StateMachineView {
    pub last_applied: Option<LogId>,
    pub last_membership: StoredMembershipView,
    pub topology: TopologyView,
    pub addresses: AddressBookView,
    pub current_snapshot: Option<StoredSnapshotView>,
    /// How many snapshots have been taken.
    pub snapshot_idx: u64,
    /// How often the fabric may have changed, modulo 2^64.
    pub changed: u64,
}

impl View for StateMachineStore {
    type V = StateMachineView;

    closed spec fn view(&self) -> StateMachineView {
        StateMachineView {
            last_applied: self.last_applied,
            last_membership: self.last_membership@,
            topology: self.topology@,
            addresses: self.addresses@,
            current_snapshot: opt_view(self.current_snapshot),
            snapshot_idx: self.snapshot_idx,
            changed: self.changed,
        }
    }
}

/// Entry `i` leads from state `i` to state `i + 1`.
pub open spec fn run_step(
    run: Seq<StateMachineView>,
    es: Seq<EntryView>,
    outs: Seq<TopoResponseView>,
    i: int,
) -> bool {
    run[i].applies_entry(es[i], run[i + 1], outs[i])
}

/// The states that entries lead through, with what each entry gave.
pub open spec fn is_run(
    run: Seq<StateMachineView>,
    es: Seq<EntryView>,
    outs: Seq<TopoResponseView>,
) -> bool {
    &&& run.len() == es.len() + 1
    &&& outs.len() == es.len()
    &&& forall|i: int| 0 <= i < es.len() ==> #[trigger] run_step(run, es, outs, i)
}

impl StateMachineView {
    /// The state before anything was applied.
    pub open spec fn initial() -> StateMachineView {
        StateMachineView {
            last_applied: None,
            last_membership: no_members(),
            topology: TopologyView::empty(),
            addresses: AddressBookView::empty(),
            current_snapshot: None,
            snapshot_idx: 0,
            changed: 0,
        }
    }

    /// Whether applying an entry leads to `after` and to `out`.
    pub open spec fn applies_entry(
        self,
        e: EntryView,
        after: StateMachineView,
        out: TopoResponseView,
    ) -> bool {
        match e.payload {
            PayloadView::Blank => {
                &&& after == StateMachineView { last_applied: Some(e.log_id), ..self }
                &&& out == TopoResponseView::ok()
            },
            PayloadView::Normal(req) => {
                &&& applies(
                    self.topology,
                    self.addresses,
                    req,
                    after.topology,
                    after.addresses,
                    out,
                )
                &&& after == StateMachineView {
                    last_applied: Some(e.log_id),
                    topology: after.topology,
                    addresses: after.addresses,
                    ..self
                }
            },
            PayloadView::Membership(m) => {
                &&& after == StateMachineView {
                    last_applied: Some(e.log_id),
                    last_membership: StoredMembershipView {
                        log_id: Some(e.log_id),
                        membership: m,
                    },
                    ..self
                }
                &&& out == TopoResponseView::ok()
            },
        }
    }

    /// Whether applying entries in order leads to `after` and to `outs`, one for each.
    pub open spec fn applies_all(
        self,
        es: Seq<EntryView>,
        after: StateMachineView,
        outs: Seq<TopoResponseView>,
    ) -> bool {
        exists|run: Seq<StateMachineView>| #[trigger]
            is_run(run, es, outs) && run.first() == self && run.last() == after
    }

    /// The id of the next snapshot: the last applied entry and the number of the snapshot.
    pub open spec fn next_snapshot_id(self) -> Seq<char> {
        match self.last_applied {
            Some(l) => "T"@ + decimal(l.term as nat) + "-N"@ + decimal(l.node as nat) + "-"@
                + decimal(l.index as nat) + "-"@ + decimal((self.snapshot_idx + 1) as nat),
            None => "--"@ + decimal((self.snapshot_idx + 1) as nat),
        }
    }

    /// The state after a snapshot was put in its place.
    pub open spec fn installed(
        self,
        s: StoredSnapshotView,
        fabric: TopologyView,
        addresses: AddressBookView,
    ) -> StateMachineView {
        StateMachineView {
            last_applied: s.meta.last_log_id,
            last_membership: s.meta.last_membership,
            topology: fabric,
            addresses,
            current_snapshot: Some(s),
            changed: self.changed.wrapping_add(1),
            ..self
        }
    }
}

impl StateMachineStore {
    /// The fabric and the address book are stored consistently.
    pub closed spec fn inv(&self) -> bool {
        self.topology.inv() && self.addresses.inv()
    }

    /// The state before anything was applied.
    pub fn new() -> (r: StateMachineStore)
        ensures
            r.inv(),
            r@ == StateMachineView::initial(),
    {
        let r = StateMachineStore {
            last_applied: None,
            last_membership: StoredMembership {
                log_id: None,
                membership: Membership { voters: Vec::new(), nodes: Vec::new(), addrs: Vec::new() },
            },
            topology: Topology::new(),
            addresses: AddressBook::new(),
            current_snapshot: None,
            snapshot_idx: 0,
            changed: 0,
        };
        assert(r@ =~= StateMachineView::initial()) by {
            assert(r.last_membership@ =~= no_members());
        }
        r
    }

    /// The state that a snapshot of an earlier run describes. `fabric` and `addresses` are the
    /// snapshot's data, read.
    pub fn resume(
        snapshot: StoredSnapshot,
        fabric: &FabricSnapshot,
        addresses: &AddressSnapshot,
    ) -> (r: StateMachineStore)
        requires
            fabric@.usable(),
        ensures
            r.inv(),
            r@ == (StateMachineView {
                last_applied: snapshot@.meta.last_log_id,
                last_membership: snapshot@.meta.last_membership,
                topology: fabric@.model(),
                addresses: addresses@.model(),
                current_snapshot: Some(snapshot@),
                ..StateMachineView::initial()
            }),
    {
        StateMachineStore {
            last_applied: snapshot.meta.last_log_id,
            last_membership: snapshot.meta.last_membership.clone(),
            topology: Topology::from_snapshot(fabric),
            addresses: AddressBook::from_snapshot(addresses),
            current_snapshot: Some(snapshot),
            snapshot_idx: 0,
            changed: 0,
        }
    }

    /// The fabric as applied so far.
    pub fn topology(&self) -> (r: &Topology)
        requires
            self.inv(),
        ensures
            r@ == self@.topology,
            r.inv(),
    {
        &self.topology
    }

    /// The address book as applied so far.
    pub fn addresses(&self) -> (r: &AddressBook)
        requires
            self.inv(),
        ensures
            r@ == self@.addresses,
            r.inv(),
    {
        &self.addresses
    }

    /// How often the fabric may have changed.
    pub fn changed(&self) -> (r: u64)
        ensures
            r == self@.changed,
    {
        self.changed
    }

    /// How far the log has been applied, and the members at that point.
    pub fn applied_state(&self) -> (r: (Option<LogId>, StoredMembership))
        ensures
            r.0 == self@.last_applied,
            r.1@ == self@.last_membership,
    {
        (self.last_applied, self.last_membership.clone())
    }

    /// The last snapshot.
    pub fn get_current_snapshot(&self) -> (r: &Option<StoredSnapshot>)
        ensures
            opt_view(*r) == self@.current_snapshot,
    {
        &self.current_snapshot
    }

    /// Applies one entry.
    fn apply_entry(&mut self, entry: &Entry) -> (r: TopoResponse)
        requires
            old(self).inv(),
        ensures
            final(self).inv(),
            old(self)@.applies_entry(entry@, final(self)@, r@),
    {
        self.last_applied = Some(entry.log_id);
        match &entry.payload {
            Payload::Blank => {
                assert(self@ =~= (StateMachineView {
                    last_applied: Some(entry.log_id),
                    ..old(self)@
                }));
                TopoResponse::ok()
            },
            Payload::Normal(req) => {
                let r = apply(&mut self.topology, &mut self.addresses, req);
                assert(self@ =~= (StateMachineView {
                    last_applied: Some(entry.log_id),
                    topology: self.topology@,
                    addresses: self.addresses@,
                    ..old(self)@
                }));
                r
            },
            Payload::Membership(m) => {
                self.last_membership =
                StoredMembership { log_id: Some(entry.log_id), membership: m.clone() };
                assert(self@ =~= (StateMachineView {
                    last_applied: Some(entry.log_id),
                    last_membership: StoredMembershipView {
                        log_id: Some(entry.log_id),
                        membership: m@,
                    },
                    ..old(self)@
                }));
                TopoResponse::ok()
            },
        }
    }

    /// Applies entries in order, and says that the fabric may have changed.
    pub fn apply(&mut self, entries: &Vec<Entry>) -> (r: Vec<TopoResponse>)
        requires
            old(self).inv(),
        ensures
            final(self).inv(),
            old(self)@.applies_all(
                views(entries@),
                (StateMachineView { changed: old(self)@.changed, ..final(self)@ }),
                views(r@),
            ),
            final(self)@.changed == old(self)@.changed.wrapping_add(1),
    {
        let ghost start = self@;
        let ghost es = views(entries@);
        let mut r: Vec<TopoResponse> = Vec::new();
        let ghost mut run: Seq<StateMachineView> = seq![self@];
        for i in 0..entries.len()
            invariant
                self.inv(),
                es == views(entries@),
                is_run(run, es.take(i as int), views(r@)),
                run.first() == start,
                run.last() == self@,
                self@.changed == start.changed,
                r@.len() == i,
        {
            let ghost before_run = run;
            let ghost before = views(r@);
            let out = self.apply_entry(&entries[i]);
            r.push(out);
            proof {
                run = run.push(self@);
                assert(es.take(i + 1)[i as int] == entries@[i as int]@);
                assert(views(r@) =~= before.push(out@));
                assert forall|j: int| 0 <= j < i + 1 implies #[trigger] run_step(
                    run,
                    es.take(i + 1),
                    views(r@),
                    j,
                ) by {
                    if j < i {
                        assert(run_step(before_run, es.take(i as int), before, j));
                    }
                }
            }
        }
        assert(es.take(entries@.len() as int) =~= es);
        let ghost end = self@;
        self.changed = self.changed.wrapping_add(1);
        assert((StateMachineView { changed: start.changed, ..self@ }) =~= end);
        r
    }

    /// The fabric to put into a snapshot.
    pub fn snapshot_fabric(&self) -> (r: FabricSnapshot)
        requires
            self.inv(),
        ensures
            r@.model() == self@.topology,
            r@.usable(),
    {
        self.topology.to_snapshot()
    }

    /// The address book to put into a snapshot.
    pub fn snapshot_addresses(&self) -> (r: AddressSnapshot)
        requires
            self.inv(),
        ensures
            r@.model() == self@.addresses,
    {
        self.addresses.to_snapshot()
    }

    /// Counts a snapshot of the current state, and says what it is about.
    pub fn next_snapshot(&mut self) -> (r: SnapshotMeta)
        requires
            old(self).inv(),
            old(self)@.snapshot_idx < u64::MAX,
        ensures
            final(self).inv(),
            final(self)@ == (StateMachineView {
                snapshot_idx: (old(self)@.snapshot_idx + 1) as u64,
                ..old(self)@
            }),
            r@ == (SnapshotMetaView {
                last_log_id: old(self)@.last_applied,
                last_membership: old(self)@.last_membership,
                snapshot_id: old(self)@.next_snapshot_id(),
            }),
    {
        self.snapshot_idx = self.snapshot_idx + 1;
        let snapshot_id = match self.last_applied {
            Some(l) => {
                let mut s = String::from_str("T");
                push_decimal(&mut s, l.term);
                s.append("-N");
                push_decimal(&mut s, l.node);
                s.append("-");
                push_decimal(&mut s, l.index);
                s.append("-");
                push_decimal(&mut s, self.snapshot_idx);
                s
            },
            None => {
                let mut s = String::from_str("--");
                push_decimal(&mut s, self.snapshot_idx);
                s
            },
        };
        SnapshotMeta {
            last_log_id: self.last_applied,
            last_membership: self.last_membership.clone(),
            snapshot_id,
        }
    }

    /// Remembers a snapshot as the last one.
    pub fn store_snapshot(&mut self, snapshot: StoredSnapshot)
        requires
            old(self).inv(),
        ensures
            final(self).inv(),
            final(self)@ == (StateMachineView {
                current_snapshot: Some(snapshot@),
                ..old(self)@
            }),
    {
        self.current_snapshot = Some(snapshot);
    }

    /// Puts a snapshot of another replica in place of the state. `fabric` and `addresses` are the
    /// snapshot's data, read.
    pub fn install_snapshot(
        &mut self,
        snapshot: StoredSnapshot,
        fabric: &FabricSnapshot,
        addresses: &AddressSnapshot,
    )
        requires
            old(self).inv(),
            fabric@.usable(),
        ensures
            final(self).inv(),
            final(self)@ == old(self)@.installed(
                snapshot@,
                fabric@.model(),
                addresses@.model(),
            ),
    {
        self.topology = Topology::from_snapshot(fabric);
        self.addresses = AddressBook::from_snapshot(addresses);
        self.last_applied = snapshot.meta.last_log_id;
        self.last_membership = snapshot.meta.last_membership.clone();
        self.current_snapshot = Some(snapshot);
        self.changed = self.changed.wrapping_add(1);
    }
}

proof fn run_is_wf(
    run: Seq<StateMachineView>,
    es: Seq<EntryView>,
    outs: Seq<TopoResponseView>,
    n: int,
)
    requires
        is_run(run, es, outs),
        run.first().topology.wf(),
        run.first().addresses.wf(),
        0 <= n < run.len(),
    ensures
        run[n].topology.wf(),
        run[n].addresses.wf(),
    decreases n,
{
    if n > 0 {
        run_is_wf(run, es, outs, n - 1);
        assert(run_step(run, es, outs, n - 1));
        if let PayloadView::Normal(req) = es[n - 1].payload {
            apply_keeps_wf(
                run[n - 1].topology,
                run[n - 1].addresses,
                req,
                run[n].topology,
                run[n].addresses,
                outs[n - 1],
            );
        }
    }
}

/// Applying entries keeps the fabric and the address book well formed.
pub proof fn applied_fabric_is_wf(
    s: StateMachineView,
    es: Seq<EntryView>,
    after: StateMachineView,
    outs: Seq<TopoResponseView>,
)
    requires
        s.topology.wf(),
        s.addresses.wf(),
        s.applies_all(es, after, outs),
    ensures
        after.topology.wf(),
        after.addresses.wf(),
{
    let run = choose|run: Seq<StateMachineView>| #[trigger]
        is_run(run, es, outs) && run.first() == s && run.last() == after;
    run_is_wf(run, es, outs, run.len() - 1);
}

/// After entries were applied, the last of them is the last applied.
pub proof fn last_applied_is_last_entry(
    s: StateMachineView,
    es: Seq<EntryView>,
    after: StateMachineView,
    outs: Seq<TopoResponseView>,
)
    requires
        s.applies_all(es, after, outs),
        es.len() > 0,
    ensures
        after.last_applied == Some(es.last().log_id),
        outs.len() == es.len(),
{
    let run = choose|run: Seq<StateMachineView>| #[trigger]
        is_run(run, es, outs) && run.first() == s && run.last() == after;
    assert(run_step(run, es, outs, es.len() - 1));
}

proof fn runs_converge(
    run1: Seq<StateMachineView>,
    outs1: Seq<TopoResponseView>,
    run2: Seq<StateMachineView>,
    outs2: Seq<TopoResponseView>,
    es: Seq<EntryView>,
    n: int,
)
    requires
        is_run(run1, es, outs1),
        is_run(run2, es, outs2),
        run1.first() == run2.first(),
        run1.first().topology.wf(),
        run1.first().addresses.wf(),
        0 <= n < run1.len(),
    ensures
        run1[n] == run2[n],
        forall|i: int| 0 <= i < n ==> outs1[i] == outs2[i],
    decreases n,
{
    if n > 0 {
        runs_converge(run1, outs1, run2, outs2, es, n - 1);
        run_is_wf(run1, es, outs1, n - 1);
        assert(run_step(run1, es, outs1, n - 1));
        assert(run_step(run2, es, outs2, n - 1));
        if let PayloadView::Normal(req) = es[n - 1].payload {
            assert(run1[n - 1].topology.groups_distinct());
            replicas_agree(
                run1[n - 1].topology,
                run1[n - 1].addresses,
                req,
                (run1[n].topology, run1[n].addresses),
                outs1[n - 1],
                (run2[n].topology, run2[n].addresses),
                outs2[n - 1],
            );
        }
    }
}

/// Two replicas that apply the same entries to the same well-formed state end in the same state and
/// give the same answers.
pub proof fn replicas_converge(
    s: StateMachineView,
    es: Seq<EntryView>,
    after1: StateMachineView,
    outs1: Seq<TopoResponseView>,
    after2: StateMachineView,
    outs2: Seq<TopoResponseView>,
)
    requires
        s.topology.wf(),
        s.addresses.wf(),
        s.applies_all(es, after1, outs1),
        s.applies_all(es, after2, outs2),
    ensures
        after1 == after2,
        outs1 == outs2,
{
    let run1 = choose|run: Seq<StateMachineView>| #[trigger]
        is_run(run, es, outs1) && run.first() == s && run.last() == after1;
    let run2 = choose|run: Seq<StateMachineView>| #[trigger]
        is_run(run, es, outs2) && run.first() == s && run.last() == after2;
    runs_converge(run1, outs1, run2, outs2, es, run1.len() - 1);
    assert(outs1 =~= outs2);
}

// ---------------------------------------------------------------------------
// What each request does, from the request to the fabric and the response
// ---------------------------------------------------------------------------

/// A response says exactly one thing: a success without a reason, or a failure with one and with
/// nothing else.
pub open spec fn plain_answer(out: TopoResponseView) -> bool {
    &&& out.port is None
    &&& out.addr is None
    &&& out.floating is None
    &&& out.ok <==> out.error is None
}

/// The response describes the port, in its own words.
pub open spec fn reports_port(out: TopoResponseView, p: PortView) -> bool {
    &&& out.ok
    &&& out.error is None
    &&& out.addr is None
    &&& out.floating is None
    &&& out.port matches Some(r) && {
        &&& r.id == p.id
        &&& r.vni == p.vni
        &&& r.host == p.host
        &&& r.ip == ipv4_text(p.ip)
        &&& r.mac == mac_text(p.mac)
        &&& r.tap == p.tap
    }
}

/// The response describes the floating address, in its own words.
pub open spec fn reports_floating(out: TopoResponseView, f: FloatingIpView) -> bool {
    &&& out.ok
    &&& out.error is None
    &&& out.addr is None
    &&& out.port is None
    &&& out.floating matches Some(r) && {
        &&& r.id == f.id
        &&& r.vni == f.vni
        &&& r.subnet_id == f.subnet_id
        &&& r.addr == ip_text(f.addr)
        &&& f.association matches Some(a) ==> r.assoc_port == Some(a.port_id) && r.assoc_fixed
            == Some(ip_text(a.fixed_addr))
        &&& f.association is None ==> r.assoc_port is None && r.assoc_fixed is None
    }
}

/// A host is registered exactly where the request writes an endpoint and a MAC address and does not
/// ask for SRv6. The fabric then has it under the id of the request, as the request describes it, and
/// nothing else in the fabric changes.
pub proof fn added_host_is_as_requested(
    t: TopologyView,
    b: AddressBookView,
    s: HostSpecView,
    after: TopologyView,
    after_b: AddressBookView,
    out: TopoResponseView,
)
    requires
        applies(t, b, TopoRequestView::AddHost(s), after, after_b, out),
    ensures
        plain_answer(out),
        out.ok <==> ipv4_of(s.vtep) is Some && mac_from(s.underlay_mac) is Some && s.encap
            != EncapName::Srv6,
        out.ok ==> after.hosts.dom().contains(s.id) && {
            let h = after.hosts[s.id];
            &&& h.id == s.id
            &&& ipv4_of(s.vtep) == Some(h.vtep_ip)
            &&& h.underlay_iface == s.underlay_iface
            &&& mac_from(s.underlay_mac) == Some(h.underlay_mac)
            &&& h.encap == s.encap
            &&& h.udp_port == s.udp_port
            &&& h.underlay_mtu == s.underlay_mtu
        },
        out.ok ==> after.hosts == t.hosts.insert(s.id, after.hosts[s.id]),
        !out.ok ==> after.hosts == t.hosts,
        after.networks == t.networks && after.ports == t.ports && after.security_groups
            == t.security_groups && after_b == b,
{
}

/// A network is defined exactly where the request writes a prefix, its VNI is neither zero nor
/// reserved, and no network has it. The fabric then has it under the VNI of the request, with the
/// request's name, default action and ICMP setting and the prefix that its text writes, and nothing
/// else in the fabric changes.
pub proof fn added_network_is_as_requested(
    t: TopologyView,
    b: AddressBookView,
    s: NetworkSpecView,
    after: TopologyView,
    after_b: AddressBookView,
    out: TopoResponseView,
)
    requires
        applies(t, b, TopoRequestView::AddNetwork(s), after, after_b, out),
    ensures
        plain_answer(out),
        out.ok <==> cidr_v4_of(s.subnet) is Some && 0 < s.vni < 0xFF_0000
            && !t.networks.dom().contains(s.vni),
        out.ok ==> after.networks.dom().contains(s.vni) && {
            let n = after.networks[s.vni];
            &&& n.vni == s.vni
            &&& n.name == s.name
            &&& cidr_v4_of(s.subnet) == Some(n.subnet)
            &&& n.default_action == s.default_action
            &&& n.drop_icmp == s.drop_icmp
        },
        out.ok ==> after.networks == t.networks.insert(s.vni, after.networks[s.vni]),
        !out.ok ==> after.networks == t.networks,
        after.hosts == t.hosts && after.ports == t.ports && after.security_groups
            == t.security_groups && after_b == b,
{
}

/// A security group is registered exactly where the request names it, no group has the name, and no
/// group has its policy id. The fabric then has it under its name, with the request's default action,
/// ICMP setting, statefulness, blocklist and rules, and nothing else in the fabric changes.
pub proof fn added_group_is_as_requested(
    t: TopologyView,
    b: AddressBookView,
    s: SecurityGroupSpecView,
    after: TopologyView,
    after_b: AddressBookView,
    out: TopoResponseView,
)
    requires
        applies(t, b, TopoRequestView::AddSecurityGroup(s), after, after_b, out),
    ensures
        plain_answer(out),
        out.ok <==> s.name.len() > 0 && !t.security_groups.dom().contains(s.name) && (forall|
            name: Seq<char>,
        | #[trigger]
            t.security_groups.dom().contains(name) ==> policy_id_of(name) != policy_id_of(s.name)),
        out.ok ==> after.security_groups.dom().contains(s.name) && {
            let g = after.security_groups[s.name];
            &&& g.name == s.name
            &&& g.default_action == s.default_action
            &&& g.drop_icmp == s.drop_icmp
            &&& g.stateful == s.stateful
            &&& g.blocklist == s.blocklist
            &&& g.rules == s.rules
        },
        out.ok ==> after.security_groups == t.security_groups.insert(
            s.name,
            after.security_groups[s.name],
        ),
        !out.ok ==> after.security_groups == t.security_groups,
        after.hosts == t.hosts && after.ports == t.ports && after.networks == t.networks && after_b
            == b,
{
    let g = group_of(s);
    let r = choose|r: Result<(), Seq<char>>| #[trigger]
        t.add_security_group(g, after, r) && out == done_or(r);
    let pid = policy_id_of(s.name);
    if t.has_group_of(pid) {
        let name = choose|name: Seq<char>| t.is_group_of(pid, name);
        assert(t.is_group_of(pid, name));
        assert(t.security_groups.dom().contains(name));
    } else {
        assert forall|name: Seq<char>| #[trigger]
            t.security_groups.dom().contains(name) implies policy_id_of(name) != pid by {
            assert(!t.is_group_of(pid, name));
        }
    }
}

/// No port has the address on the network.
pub open spec fn unused_on(t: TopologyView, vni: u32, bits: int) -> bool {
    forall|i: int|
        0 <= i < t.ports.len() ==> (#[trigger] t.ports[i]).vni != vni || t.ports[i].ip.bits != bits
}

/// An address is found at a port exactly where one has it.
pub proof fn unused_is_not_found(t: TopologyView, vni: u32, bits: int)
    ensures
        any_port(t.ports, at_address(vni, bits)) <==> !unused_on(t, vni, bits),
{
    let f = at_address(vni, bits);
    first_index_properties(t.ports, f);
    if any_port(t.ports, f) {
        let i = first_index(t.ports, f);
        assert(t.ports[i].vni == vni && t.ports[i].ip.bits == bits);
    }
    if !unused_on(t, vni, bits) {
        let i = choose|i: int|
            0 <= i < t.ports.len() && (#[trigger] t.ports[i]).vni == vni && t.ports[i].ip.bits
                == bits;
        assert(f(t.ports[i]));
    }
}

/// A port is created exactly where its network and host exist, no port has the interface, and an
/// address can be had: the requested one, which its text must write, in the subnet and unused; or,
/// without a request, some address between the first and the last of the subnet that no port has. The
/// port stands behind the others, as the request describes it, with the requested address or the
/// lowest unused one, with a MAC address of `02:00` and the address, and the response reports it.
/// Nothing else in the fabric changes.
pub proof fn created_port_is_as_requested(
    t: TopologyView,
    b: AddressBookView,
    vni: u32,
    host: Seq<char>,
    tap: Seq<char>,
    ip: Option<Seq<char>>,
    policy: Option<u32>,
    after: TopologyView,
    after_b: AddressBookView,
    out: TopoResponseView,
)
    requires
        t.wf(),
        applies(
            t,
            b,
            (TopoRequestView::CreatePort { vni, host, tap, ip, policy }),
            after,
            after_b,
            out,
        ),
    ensures
        out.ok <==> t.networks.dom().contains(vni) && t.hosts.dom().contains(host) && (forall|
            i: int,
        |
            0 <= i < t.ports.len() ==> (#[trigger] t.ports[i]).host != host || t.ports[i].tap
                != tap) && match ip {
            Some(s) => ipv4_of(s) matches Some(a) && t.networks[vni].subnet.contains(a)
                && unused_on(t, vni, a.bits as int),
            None => exists|a: int|
                t.networks[vni].subnet.base() < a < t.networks[vni].subnet.base()
                    + t.networks[vni].subnet.span() - 1 && #[trigger] unused_on(t, vni, a),
        },
        out.ok ==> after.ports.len() == t.ports.len() + 1 && {
            let p = after.ports[t.ports.len() as int];
            let subnet = t.networks[vni].subnet;
            &&& after.ports.drop_last() == t.ports
            &&& p.vni == vni
            &&& p.host == host
            &&& p.tap == tap
            &&& p.policy == policy
            &&& p.id == "port-"@ + decimal(vni as nat) + "-"@ + ipv4_text(p.ip)
            &&& p.mac[0] == 2 && p.mac[1] == 0
            &&& p.mac[2] * 0x100_0000 + p.mac[3] * 0x1_0000 + p.mac[4] * 0x100 + p.mac[5]
                == p.ip.bits
            &&& unused_on(t, vni, p.ip.bits as int)
            &&& ip matches Some(s) ==> ipv4_of(s) == Some(p.ip)
            &&& ip is None ==> {
                &&& subnet.base() < p.ip.bits < subnet.base() + subnet.span() - 1
                &&& forall|a: int|
                    subnet.base() < a < p.ip.bits ==> !#[trigger] unused_on(t, vni, a)
            }
            &&& reports_port(out, p)
        },
        !out.ok ==> after == t && plain_answer(out),
        after.hosts == t.hosts && after.networks == t.networks && after.security_groups
            == t.security_groups && after_b == b,
{
    first_index_properties(t.ports, at_tap(host, tap));
    let f = at_tap(host, tap);
    let k = first_index(t.ports, f);
    if k < t.ports.len() {
        assert(t.ports[k].host == host && t.ports[k].tap == tap);
    } else {
        assert forall|i: int| 0 <= i < t.ports.len() implies (#[trigger] t.ports[i]).host != host
            || t.ports[i].tap != tap by {
            assert(!f(t.ports[i]));
        }
    }
    if t.networks.dom().contains(vni) {
        let subnet = t.networks[vni].subnet;
        assert(subnet.valid());
        lowest_free_properties(t.ports, vni, subnet.base(), 1, subnet.span());
        assert forall|a: int| #[trigger] unused_on(t, vni, a) == !any_port(
            t.ports,
            at_address(vni, a),
        ) by {
            unused_is_not_found(t, vni, a);
        }
        let requested = match ip {
            None => None,
            Some(s) => ipv4_of(s),
        };
        crate::fabric_laws::created_port_properties(t, vni, host, tap, requested, policy, None);
        if let Ok(p) = t.create_port(vni, host, tap, requested, policy, None).1 {
            crate::addr::octets_recombine(p.ip.bits);
            if out.ok {
                assert(after.ports == t.ports.push(p));
                assert(after.ports.drop_last() =~= t.ports);
                assert(unused_on(t, vni, p.ip.bits as int));
            }
        }
        if ip is None && !out.ok {
            assert forall|a: int| subnet.base() < a < subnet.base() + subnet.span()
                - 1 implies !#[trigger] unused_on(t, vni, a) || k < t.ports.len()
                || !t.hosts.dom().contains(host) by {
                if subnet.span() >= 3 {
                    let g = at_address(vni, a);
                    unused_is_not_found(t, vni, a);
                }
            }
        }
    }
}

/// Removing a port always succeeds. The ports with the id are gone, the others stay in their order,
/// and nothing else in the fabric changes.
pub proof fn removed_port_is_gone(
    t: TopologyView,
    b: AddressBookView,
    id: Seq<char>,
    after: TopologyView,
    after_b: AddressBookView,
    out: TopoResponseView,
)
    requires
        applies(t, b, (TopoRequestView::RemovePort { id }), after, after_b, out),
    ensures
        plain_answer(out) && out.ok,
        after.ports == t.ports.filter(|p: PortView| p.id != id),
        after.hosts == t.hosts && after.networks == t.networks && after.security_groups
            == t.security_groups && after_b == b,
{
    kept_ports_are_filtered(t.ports, id);
}

proof fn kept_ports_are_filtered(s: Seq<PortView>, id: Seq<char>)
    ensures
        flat(s, unless_id(id)) == s.filter(|p: PortView| p.id != id),
    decreases s.len(),
{
    reveal(Seq::filter);
    if s.len() > 0 {
        kept_ports_are_filtered(s.drop_last(), id);
        assert(flat(s, unless_id(id)) =~= s.filter(|p: PortView| p.id != id));
    } else {
        assert(flat(s, unless_id(id)) =~= s.filter(|p: PortView| p.id != id));
    }
}

/// A port is moved exactly where the host exists, the port exists, and no other port has the
/// interface. It then is on the host and interface of the request, keeps all else, and the response
/// reports it. Nothing else in the fabric changes.
pub proof fn moved_port_is_as_requested(
    t: TopologyView,
    b: AddressBookView,
    id: Seq<char>,
    host: Seq<char>,
    tap: Seq<char>,
    after: TopologyView,
    after_b: AddressBookView,
    out: TopoResponseView,
)
    requires
        t.wf(),
        applies(t, b, (TopoRequestView::MigratePort { id, host, tap }), after, after_b, out),
    ensures
        out.ok <==> t.hosts.dom().contains(host) && (exists|i: int|
            0 <= i < t.ports.len() && (#[trigger] t.ports[i]).id == id) && (forall|i: int|
            0 <= i < t.ports.len() && (#[trigger] t.ports[i]).id != id ==> t.ports[i].host != host
                || t.ports[i].tap != tap),
        after.ports.len() == t.ports.len(),
        out.ok ==> forall|i: int|
            0 <= i < t.ports.len() ==> {
                let was = #[trigger] t.ports[i];
                let now = after.ports[i];
                &&& was.id != id ==> now == was
                &&& was.id == id ==> {
                    &&& now.id == was.id
                    &&& now.vni == was.vni
                    &&& now.policy == was.policy
                    &&& now.host == host
                    &&& now.ip == was.ip
                    &&& now.mac == was.mac
                    &&& now.tap == tap
                    &&& reports_port(out, now)
                }
            },
        !out.ok ==> after == t && plain_answer(out),
        after.hosts == t.hosts && after.networks == t.networks && after.security_groups
            == t.security_groups && after_b == b,
{
    let f = other_at_tap(id, host, tap);
    first_index_properties(t.ports, f);
    first_index_properties(t.ports, with_id(id));
    let k = first_index(t.ports, with_id(id));
    let o = first_index(t.ports, f);
    if o < t.ports.len() {
        assert(t.ports[o].id != id && t.ports[o].host == host && t.ports[o].tap == tap);
    } else {
        assert forall|i: int| 0 <= i < t.ports.len() && (#[trigger] t.ports[i]).id
            != id implies t.ports[i].host != host || t.ports[i].tap != tap by {
            assert(!f(t.ports[i]));
        }
    }
    if k < t.ports.len() {
        assert(t.ports[k].id == id);
        assert forall|i: int| 0 <= i < t.ports.len() && (#[trigger] t.ports[i]).id == id implies i
            == k by {
            if i != k {
                crate::fabric_laws::port_ids_differ(t, i, k);
            }
        }
    } else {
        assert forall|i: int| 0 <= i < t.ports.len() implies (#[trigger] t.ports[i]).id != id by {
            assert(!with_id(id)(t.ports[i]));
        }
    }
}

/// A port is bound exactly where it exists and the group, where one is named, exists too. It then has
/// the group's policy, or none where no group is named, keeps all else, and the response reports it.
/// Nothing else in the fabric changes.
pub proof fn bound_port_is_as_requested(
    t: TopologyView,
    b: AddressBookView,
    port_id: Seq<char>,
    group: Option<Seq<char>>,
    after: TopologyView,
    after_b: AddressBookView,
    out: TopoResponseView,
)
    requires
        t.wf(),
        applies(
            t,
            b,
            (TopoRequestView::SetPortSecurityGroup { port_id, group }),
            after,
            after_b,
            out,
        ),
    ensures
        out.ok <==> (exists|i: int|
            0 <= i < t.ports.len() && (#[trigger] t.ports[i]).id == port_id) && (group matches Some(
            name,
        ) ==> t.security_groups.dom().contains(name)),
        after.ports.len() == t.ports.len(),
        out.ok ==> forall|i: int|
            0 <= i < t.ports.len() ==> {
                let was = #[trigger] t.ports[i];
                let now = after.ports[i];
                &&& was.id != port_id ==> now == was
                &&& was.id == port_id ==> {
                    &&& now.id == was.id
                    &&& now.vni == was.vni
                    &&& now.host == was.host
                    &&& now.ip == was.ip
                    &&& now.mac == was.mac
                    &&& now.tap == was.tap
                    &&& group matches Some(name) ==> now.policy == Some(policy_id_of(name))
                    &&& group is None ==> now.policy is None
                    &&& reports_port(out, now)
                }
            },
        !out.ok ==> after == t && plain_answer(out),
        after.hosts == t.hosts && after.networks == t.networks && after.security_groups
            == t.security_groups && after_b == b,
{
    first_index_properties(t.ports, with_id(port_id));
    let k = first_index(t.ports, with_id(port_id));
    if k < t.ports.len() {
        assert(t.ports[k].id == port_id);
        assert forall|i: int| 0 <= i < t.ports.len() && (#[trigger] t.ports[i]).id
            == port_id implies i == k by {
            if i != k {
                crate::fabric_laws::port_ids_differ(t, i, k);
            }
        }
    } else {
        assert forall|i: int| 0 <= i < t.ports.len() implies (#[trigger] t.ports[i]).id
            != port_id by {
            assert(!with_id(port_id)(t.ports[i]));
        }
    }
}

/// A host is retired exactly where no port is on it, a network is decommissioned exactly where no
/// port is on it and no subnet belongs to it, and a group is removed exactly where no port is bound to
/// it. Only the entry named goes, and one that is not there is no failure.
pub proof fn removal_waits_for_ports(
    t: TopologyView,
    b: AddressBookView,
    req: TopoRequestView,
    after: TopologyView,
    after_b: AddressBookView,
    out: TopoResponseView,
)
    requires
        applies(t, b, req, after, after_b, out),
    ensures
        req matches TopoRequestView::RemoveHost { id } ==> {
            &&& plain_answer(out)
            &&& out.ok <==> forall|i: int|
                0 <= i < t.ports.len() ==> (#[trigger] t.ports[i]).host != id
            &&& out.ok ==> after.hosts == t.hosts.remove(id)
            &&& !out.ok ==> after.hosts == t.hosts
            &&& after.networks == t.networks && after.security_groups == t.security_groups
            &&& after.ports == t.ports && after_b == b
        },
        req matches TopoRequestView::RemoveNetwork { vni } ==> {
            &&& plain_answer(out)
            &&& out.ok <==> (forall|i: int|
                0 <= i < t.ports.len() ==> (#[trigger] t.ports[i]).vni != vni) && (
            t.networks.dom().contains(vni) ==> forall|k: Seq<char>| #[trigger]
                b.subnets.dom().contains(k) ==> b.subnets[k].vni != vni)
            &&& out.ok ==> after.networks == t.networks.remove(vni)
            &&& !out.ok ==> after.networks == t.networks
            &&& after.hosts == t.hosts && after.security_groups == t.security_groups
            &&& after.ports == t.ports && after_b == b
        },
        req matches TopoRequestView::RemoveSecurityGroup { name } ==> {
            &&& plain_answer(out)
            &&& out.ok <==> !t.security_groups.dom().contains(name) || forall|i: int|
                0 <= i < t.ports.len() ==> (#[trigger] t.ports[i]).policy != Some(
                    policy_id_of(name),
                )
            &&& out.ok ==> after.security_groups == t.security_groups.remove(name)
            &&& !out.ok ==> after.security_groups == t.security_groups
            &&& after.hosts == t.hosts && after.networks == t.networks
            &&& after.ports == t.ports && after_b == b
        },
{
    match req {
        TopoRequestView::RemoveHost { id } => {
            first_index_properties(t.ports, on_host(id));
            let k = first_index(t.ports, on_host(id));
            if k < t.ports.len() {
                assert(t.ports[k].host == id);
            } else {
                assert forall|i: int| 0 <= i < t.ports.len() implies (#[trigger] t.ports[i]).host
                    != id by {
                    assert(!on_host(id)(t.ports[i]));
                }
            }
        },
        TopoRequestView::RemoveNetwork { vni } => {
            first_index_properties(t.ports, on_network(vni));
            let k = first_index(t.ports, on_network(vni));
            if k < t.ports.len() {
                assert(t.ports[k].vni == vni);
            } else {
                assert forall|i: int| 0 <= i < t.ports.len() implies (#[trigger] t.ports[i]).vni
                    != vni by {
                    assert(!on_network(vni)(t.ports[i]));
                }
            }
        },
        TopoRequestView::RemoveSecurityGroup { name } => {
            let f = bound_to(policy_id_of(name));
            first_index_properties(t.ports, f);
            let k = first_index(t.ports, f);
            if k < t.ports.len() {
                assert(t.ports[k].policy == Some(policy_id_of(name)));
            } else {
                assert forall|i: int| 0 <= i < t.ports.len() implies (#[trigger] t.ports[i]).policy
                    != Some(policy_id_of(name)) by {
                    assert(!f(t.ports[i]));
                }
            }
            if !t.security_groups.dom().contains(name) {
                assert(t.security_groups =~= t.security_groups.remove(name));
            }
        },
        _ => {},
    }
}

/// A subnet is defined exactly where the request writes a prefix, its gateway and the ends of its pool
/// are addresses where they are given, the pool has both ends or none, its network exists, and no
/// subnet has the id. The book then has it under the id of the request, as the request describes it,
/// and nothing else changes.
pub proof fn added_subnet_is_as_requested(
    t: TopologyView,
    b: AddressBookView,
    s: SubnetSpecView,
    after: TopologyView,
    after_b: AddressBookView,
    out: TopoResponseView,
)
    requires
        applies(t, b, TopoRequestView::AddSubnet(s), after, after_b, out),
    ensures
        plain_answer(out),
        out.ok <==> {
            &&& s.cidr.contains(':') ==> cidr_v6_of(s.cidr) is Some
            &&& !s.cidr.contains(':') ==> cidr_v4_of(s.cidr) is Some
            &&& s.gateway matches Some(g) ==> ip_of(g) is Some
            &&& s.pool_start is Some <==> s.pool_end is Some
            &&& s.pool_start matches Some(a) ==> ip_of(a) is Some
            &&& s.pool_end matches Some(a) ==> ip_of(a) is Some
            &&& t.networks.dom().contains(s.vni)
            &&& !b.subnets.dom().contains(s.id)
        },
        out.ok ==> after_b.subnets.dom().contains(s.id) && {
            let n = after_b.subnets[s.id];
            &&& n.id == s.id
            &&& n.vni == s.vni
            &&& s.cidr.contains(':') ==> n.cidr == SubnetCidr::V6(cidr_v6_of(s.cidr)->0)
            &&& !s.cidr.contains(':') ==> n.cidr == SubnetCidr::V4(cidr_v4_of(s.cidr)->0)
            &&& s.gateway matches Some(g) ==> n.gateway == ip_of(g)
            &&& s.gateway is None ==> n.gateway is None
            &&& s.pool_start is None ==> n.pool is None
            &&& s.pool_start matches Some(a) ==> (n.pool matches Some(p) && Some(p.start) == ip_of(a)
                && Some(p.end) == ip_of(s.pool_end->0))
            &&& n.enable_dhcp == s.enable_dhcp
        },
        out.ok ==> after_b.subnets == b.subnets.insert(s.id, after_b.subnets[s.id]),
        !out.ok ==> after_b.subnets == b.subnets,
        after_b.leases == b.leases && after_b.floating == b.floating && after == t,
{
    find_char_properties(s.cidr, ':');
    let k = find_char(s.cidr, ':');
    if k < s.cidr.len() {
        assert(s.cidr[k as int] == ':');
        assert(s.cidr.contains(':'));
    } else {
        assert(!s.cidr.contains(':'));
    }
}

/// A subnet is removed exactly where none of its addresses is given out; one that is not there is no
/// failure. Nothing else changes.
pub proof fn removed_subnet_is_gone(
    t: TopologyView,
    b: AddressBookView,
    id: Seq<char>,
    after: TopologyView,
    after_b: AddressBookView,
    out: TopoResponseView,
)
    requires
        b.wf(),
        applies(t, b, (TopoRequestView::RemoveSubnet { id }), after, after_b, out),
    ensures
        plain_answer(out),
        out.ok <==> forall|a: IpAddr| !#[trigger] b.leases.dom().contains((id, a)),
        out.ok ==> after_b.subnets == b.subnets.remove(id),
        !out.ok ==> after_b.subnets == b.subnets,
        after_b.leases == b.leases && after_b.floating == b.floating && after == t,
{
    if !b.subnets.dom().contains(id) {
        assert(b.subnets =~= b.subnets.remove(id));
        assert forall|a: IpAddr| !#[trigger] b.leases.dom().contains((id, a)) by {
            if b.leases.dom().contains((id, a)) {
                assert(b.subnets.dom().contains(id));
            }
        }
    }
}

/// The address is what a request gets in the subnet: the one that its text writes, which a port can
/// have and nobody has; or, without a text, the lowest address of the pool that a port can have and
/// nobody has.
pub open spec fn is_given(
    b: AddressBookView,
    subnet_id: Seq<char>,
    ip: Option<Seq<char>>,
    a: IpAddr,
) -> bool {
    let s = b.subnets[subnet_id];
    &&& b.subnets.dom().contains(subnet_id)
    &&& assignable(s, a)
    &&& !b.leases.dom().contains((subnet_id, a))
    &&& ip matches Some(text) ==> ip_of(text) == Some(a)
    &&& ip is None ==> in_pool(s, a) && forall|x: IpAddr| #[trigger]
        is_free(b, subnet_id, x) ==> ip_number(a) <= ip_number(x)
}

/// A request for an address can be met: its text writes an address that a port can have and nobody
/// has; or, without a text, some address of the pool is free.
pub open spec fn can_be_given(
    b: AddressBookView,
    subnet_id: Seq<char>,
    ip: Option<Seq<char>>,
) -> bool {
    b.subnets.dom().contains(subnet_id) && match ip {
        Some(text) => ip_of(text) matches Some(a) && assignable(b.subnets[subnet_id], a)
            && !b.leases.dom().contains((subnet_id, a)),
        None => exists|x: IpAddr| #[trigger] is_free(b, subnet_id, x),
    }
}

proof fn given_is_given(b: AddressBookView, subnet_id: Seq<char>, ip: Option<Seq<char>>)
    ensures
        opt_ip_of(ip) matches Ok(a) ==> {
            &&& b.address_for(subnet_id, a) is Ok <==> can_be_given(b, subnet_id, ip)
            &&& b.address_for(subnet_id, a) matches Ok(x) ==> is_given(b, subnet_id, ip, x)
        },
        opt_ip_of(ip) is Err ==> !can_be_given(b, subnet_id, ip),
{
    if b.subnets.dom().contains(subnet_id) {
        lowest_address_is_given(b, subnet_id);
    }
}

/// An address is given out by itself exactly where the request can be met. The response names the
/// address, the book says that it was given to nobody in particular, and nothing else changes.
pub proof fn allocated_address_is_as_requested(
    t: TopologyView,
    b: AddressBookView,
    subnet_id: Seq<char>,
    ip: Option<Seq<char>>,
    after: TopologyView,
    after_b: AddressBookView,
    out: TopoResponseView,
)
    requires
        applies(t, b, (TopoRequestView::AllocateAddress { subnet_id, ip }), after, after_b, out),
    ensures
        out.ok <==> can_be_given(b, subnet_id, ip),
        out.ok ==> exists|a: IpAddr| #[trigger]
            is_given(b, subnet_id, ip, a) && out.addr == Some(ip_text(a)) && after_b.leases
                == b.leases.insert((subnet_id, a), HolderView::Standalone),
        out.ok ==> out.error is None && out.port is None && out.floating is None,
        !out.ok ==> after_b.leases == b.leases && plain_answer(out),
        after_b.subnets == b.subnets && after_b.floating == b.floating && after == t,
{
    given_is_given(b, subnet_id, ip);
    if out.ok {
        assert(is_given(b, subnet_id, ip, b.address_for(subnet_id, opt_ip_of(ip)->Ok_0)->Ok_0));
    }
}

/// A port is bound to a subnet exactly where the port exists, the subnet belongs to its network, and
/// the request can be met. The response names the address, the book says that the port has it, and
/// nothing else changes.
pub proof fn bound_address_is_as_requested(
    t: TopologyView,
    b: AddressBookView,
    port_id: Seq<char>,
    subnet_id: Seq<char>,
    ip: Option<Seq<char>>,
    after: TopologyView,
    after_b: AddressBookView,
    out: TopoResponseView,
)
    requires
        t.wf(),
        applies(
            t,
            b,
            (TopoRequestView::BindPortSubnet { port_id, subnet_id, ip }),
            after,
            after_b,
            out,
        ),
    ensures
        out.ok <==> can_be_given(b, subnet_id, ip) && exists|i: int|
            0 <= i < t.ports.len() && (#[trigger] t.ports[i]).id == port_id && t.ports[i].vni
                == b.subnets[subnet_id].vni,
        out.ok ==> exists|a: IpAddr| #[trigger]
            is_given(b, subnet_id, ip, a) && out.addr == Some(ip_text(a)) && after_b.leases
                == b.leases.insert((subnet_id, a), HolderView::Port(port_id)),
        out.ok ==> out.error is None && out.port is None && out.floating is None,
        !out.ok ==> after_b.leases == b.leases && plain_answer(out),
        after_b.subnets == b.subnets && after_b.floating == b.floating && after == t,
{
    given_is_given(b, subnet_id, ip);
    first_index_properties(t.ports, with_id(port_id));
    let k = first_index(t.ports, with_id(port_id));
    if k < t.ports.len() {
        assert(t.ports[k].id == port_id);
        assert forall|i: int| 0 <= i < t.ports.len() && (#[trigger] t.ports[i]).id
            == port_id implies i == k by {
            if i != k {
                crate::fabric_laws::port_ids_differ(t, i, k);
            }
        }
    } else {
        assert forall|i: int| 0 <= i < t.ports.len() implies (#[trigger] t.ports[i]).id
            != port_id by {
            assert(!with_id(port_id)(t.ports[i]));
        }
    }
    if out.ok {
        assert(is_given(b, subnet_id, ip, b.address_for(subnet_id, opt_ip_of(ip)->Ok_0)->Ok_0));
    }
}

/// An address is taken back exactly where the text writes it and the one who asks has it: the port, or
/// for an address given out by itself nobody in particular. Only that address becomes free.
pub proof fn released_address_is_free(
    t: TopologyView,
    b: AddressBookView,
    port_id: Option<Seq<char>>,
    subnet_id: Seq<char>,
    addr: Seq<char>,
    after: TopologyView,
    after_b: AddressBookView,
    out: TopoResponseView,
)
    requires
        match port_id {
            Some(port_id) => applies(
                t,
                b,
                (TopoRequestView::UnbindPortAddress { port_id, subnet_id, addr }),
                after,
                after_b,
                out,
            ),
            None => applies(
                t,
                b,
                (TopoRequestView::ReleaseAddress { subnet_id, addr }),
                after,
                after_b,
                out,
            ),
        },
    ensures
        plain_answer(out),
        out.ok <==> (ip_of(addr) matches Some(a) && b.leases.dom().contains((subnet_id, a))
            && match port_id {
            Some(id) => b.leases[(subnet_id, a)] == HolderView::Port(id),
            None => b.leases[(subnet_id, a)] == HolderView::Standalone,
        }),
        out.ok ==> after_b.leases == b.leases.remove((subnet_id, ip_of(addr)->0)),
        !out.ok ==> after_b.leases == b.leases,
        after_b.subnets == b.subnets && after_b.floating == b.floating && after == t,
{
}

/// A floating address is given out exactly where the request can be met. It belongs to the subnet and
/// its network and stands for nothing yet, the response reports it, and nothing else changes.
pub proof fn allocated_floating_is_as_requested(
    t: TopologyView,
    b: AddressBookView,
    subnet_id: Seq<char>,
    ip: Option<Seq<char>>,
    after: TopologyView,
    after_b: AddressBookView,
    out: TopoResponseView,
)
    requires
        applies(t, b, (TopoRequestView::AllocateFloatingIp { subnet_id, ip }), after, after_b, out),
    ensures
        out.ok <==> can_be_given(b, subnet_id, ip),
        out.ok ==> exists|f: FloatingIpView| #[trigger]
            reports_floating(out, f) && {
                &&& is_given(b, subnet_id, ip, f.addr)
                &&& f.id == "fip-"@ + subnet_id + "-"@ + ip_text(f.addr)
                &&& f.vni == b.subnets[subnet_id].vni
                &&& f.subnet_id == subnet_id
                &&& f.association is None
                &&& after_b.leases == b.leases.insert((subnet_id, f.addr), HolderView::Floating)
                &&& after_b.floating == b.floating.insert(f.id, f)
            },
        !out.ok ==> after_b == b && plain_answer(out),
        after_b.subnets == b.subnets && after == t,
{
    given_is_given(b, subnet_id, ip);
    if out.ok {
        let f = b.allocate_floating(subnet_id, opt_ip_of(ip)->Ok_0).1->Ok_0;
        assert(reports_floating(out, f));
    }
}

/// A floating address is associated exactly where it exists and stands for nothing, the text writes
/// an address that the port has, and no floating address stands for that address of the port yet. It
/// then stands for it, keeps all else, the response reports it, and nothing else changes.
pub proof fn associated_floating_is_as_requested(
    t: TopologyView,
    b: AddressBookView,
    id: Seq<char>,
    port_id: Seq<char>,
    fixed_addr: Seq<char>,
    after: TopologyView,
    after_b: AddressBookView,
    out: TopoResponseView,
)
    requires
        applies(
            t,
            b,
            (TopoRequestView::AssociateFloatingIp { id, port_id, fixed_addr }),
            after,
            after_b,
            out,
        ),
    ensures
        out.ok <==> (ip_of(fixed_addr) matches Some(a) && {
            &&& b.floating.dom().contains(id)
            &&& b.floating[id].association is None
            &&& exists|s: Seq<char>|
                #![trigger b.leases.dom().contains((s, a))]
                b.leases.dom().contains((s, a)) && b.leases[(s, a)] == HolderView::Port(port_id)
            &&& forall|k: Seq<char>| #[trigger]
                b.floating.dom().contains(k) ==> !(b.floating[k].association matches Some(x)
                    && x.port_id == port_id && x.fixed_addr == a)
        }),
        out.ok ==> after_b.floating.dom().contains(id) && {
            let was = b.floating[id];
            let now = after_b.floating[id];
            &&& now.id == was.id
            &&& now.vni == was.vni
            &&& now.subnet_id == was.subnet_id
            &&& now.addr == was.addr
            &&& now.association matches Some(x) && x.port_id == port_id && Some(x.fixed_addr)
                == ip_of(fixed_addr)
            &&& reports_floating(out, now)
            &&& after_b.floating == b.floating.insert(id, now)
        },
        !out.ok ==> after_b == b && plain_answer(out),
        after_b.subnets == b.subnets && after_b.leases == b.leases && after == t,
{
    if let Some(a) = ip_of(fixed_addr) {
        let target = AssociationView { port_id, fixed_addr: a };
        if b.is_target(target) {
            let k = choose|k: Seq<char>| #[trigger]
                b.floating.dom().contains(k) && b.floating[k].association == Some(target);
            assert(b.floating.dom().contains(k));
        } else {
            assert forall|k: Seq<char>| #[trigger] b.floating.dom().contains(k) implies !(
            b.floating[k].association matches Some(x) && x.port_id == port_id && x.fixed_addr
                == a) by {
                assert(b.floating[k].association != Some(target));
                if let Some(x) = b.floating[k].association {
                    if x.port_id == port_id && x.fixed_addr == a {
                        assert(x == target);
                    }
                }
            }
        }
    }
}

/// An association is cleared exactly where the floating address exists: it then stands for nothing,
/// keeps all else, the response reports it, and nothing else changes. A floating address is released
/// exactly where it exists and stands for nothing: it and its address are gone, and nothing else
/// changes.
pub proof fn freed_floating_is_as_requested(
    t: TopologyView,
    b: AddressBookView,
    req: TopoRequestView,
    after: TopologyView,
    after_b: AddressBookView,
    out: TopoResponseView,
)
    requires
        applies(t, b, req, after, after_b, out),
    ensures
        req matches TopoRequestView::DisassociateFloatingIp { id } ==> {
            &&& out.ok <==> b.floating.dom().contains(id)
            &&& out.ok ==> {
                let was = b.floating[id];
                let now = after_b.floating[id];
                &&& now.id == was.id
                &&& now.vni == was.vni
                &&& now.subnet_id == was.subnet_id
                &&& now.addr == was.addr
                &&& now.association is None
                &&& reports_floating(out, now)
                &&& after_b.floating == b.floating.insert(id, now)
            }
            &&& !out.ok ==> after_b == b && plain_answer(out)
            &&& after_b.subnets == b.subnets && after_b.leases == b.leases && after == t
        },
        req matches TopoRequestView::ReleaseFloatingIp { id } ==> {
            &&& plain_answer(out)
            &&& out.ok <==> b.floating.dom().contains(id) && b.floating[id].association is None
            &&& out.ok ==> after_b.floating == b.floating.remove(id) && after_b.leases
                == b.leases.remove((b.floating[id].subnet_id, b.floating[id].addr))
            &&& !out.ok ==> after_b == b
            &&& after_b.subnets == b.subnets && after == t
        },
{
}

// ---------------------------------------------------------------------------
// What an entry does to the replicated state
// ---------------------------------------------------------------------------

/// Whatever an entry holds, it becomes the last one applied, and it touches neither the snapshots nor
/// the count of changes.
pub proof fn entry_becomes_the_last_applied(
    s: StateMachineView,
    e: EntryView,
    after: StateMachineView,
    out: TopoResponseView,
)
    requires
        s.applies_entry(e, after, out),
    ensures
        after.last_applied matches Some(l) && l.term == e.log_id.term && l.node == e.log_id.node
            && l.index == e.log_id.index,
        after.current_snapshot == s.current_snapshot,
        after.snapshot_idx == s.snapshot_idx,
        after.changed == s.changed,
{
}

/// An entry with a request applies it to the fabric and the address book and leaves the members as
/// they are; any other entry leaves the fabric and the address book alone and is answered with a plain
/// success; and an entry with members makes them the members, as of its own position.
pub proof fn entry_does_what_it_holds(
    s: StateMachineView,
    e: EntryView,
    after: StateMachineView,
    out: TopoResponseView,
)
    requires
        s.applies_entry(e, after, out),
    ensures
        match e.payload {
            PayloadView::Blank => after.topology == s.topology && after.addresses == s.addresses
                && after.last_membership == s.last_membership && out.ok && plain_answer(out),
            PayloadView::Normal(req) => applies(
                s.topology,
                s.addresses,
                req,
                after.topology,
                after.addresses,
                out,
            ) && after.last_membership == s.last_membership,
            PayloadView::Membership(m) => after.topology == s.topology && after.addresses
                == s.addresses && after.last_membership.log_id == Some(e.log_id)
                && after.last_membership.membership == m && out.ok && plain_answer(out),
        },
{
}

/// An installed snapshot replaces the fabric, the address book, the members and the position, becomes
/// the current snapshot, and counts as a change.
pub proof fn installed_snapshot_replaces_the_state(
    s: StateMachineView,
    snap: StoredSnapshotView,
    fabric: TopologyView,
    addresses: AddressBookView,
)
    ensures
        ({
            let t = s.installed(snap, fabric, addresses);
            &&& t.last_applied == snap.meta.last_log_id
            &&& t.last_membership == snap.meta.last_membership
            &&& t.topology == fabric
            &&& t.addresses == addresses
            &&& t.current_snapshot == Some(snap)
            &&& t.snapshot_idx == s.snapshot_idx
            &&& t.changed != s.changed
            &&& s.changed < u64::MAX ==> t.changed == s.changed + 1
        }),
{
}

/// The state before anything was applied: no position, no members, an empty fabric, no addresses and
/// no snapshot.
pub proof fn state_starts_empty()
    ensures
        ({
            let s = StateMachineView::initial();
            &&& s.last_applied is None
            &&& s.last_membership.log_id is None
            &&& s.last_membership.membership.voters.len() == 0
            &&& s.topology.hosts.dom().is_empty() && s.topology.networks.dom().is_empty()
            &&& s.topology.ports.len() == 0 && s.topology.security_groups.dom().is_empty()
            &&& s.addresses.subnets.dom().is_empty() && s.addresses.leases.dom().is_empty()
            &&& s.addresses.floating.dom().is_empty()
            &&& s.current_snapshot is None
        }),
{
}

/// A snapshot's id tells the last entry that it covers and its own number, so that no two snapshots
/// of one store share an id.
pub proof fn snapshot_id_tells_its_number(s: StateMachineView)
    requires
        s.snapshot_idx < u64::MAX,
    ensures
        s.last_applied is None ==> s.next_snapshot_id() == "--"@ + decimal(
            (s.snapshot_idx + 1) as nat,
        ),
        s.last_applied matches Some(l) ==> s.next_snapshot_id() == "T"@ + decimal(l.term as nat)
            + "-N"@ + decimal(l.node as nat) + "-"@ + decimal(l.index as nat) + "-"@ + decimal(
            (s.snapshot_idx + 1) as nat,
        ),
{
}

/// Entries that are appended stand under their indices, the later of two with one index in its place,
/// and nothing else is put in.
pub proof fn appended_entries_are_found(m: Map<u64, EntryView>, es: Seq<EntryView>, e: EntryView)
    ensures
        put_all(m, Seq::empty()) == m,
        put_all(m, es.push(e)) == put_all(m, es).insert(e.log_id.index, e),
{
    assert(es.push(e).drop_last() =~= es);
}

/// The last position is that of the entry with the greatest index, or that of the last purged entry
/// where the log is empty.
pub proof fn last_position_is_the_greatest(l: LogView, last: Option<LogId>, k: u64)
    requires
        l.is_last(last),
        l.indices_match(),
    ensures
        l.entries.dom().contains(k) ==> (last matches Some(p) && p.index >= k
            && l.entries.dom().contains(p.index) && l.entries[p.index].log_id == p),
        l.entries.dom().is_empty() ==> last == l.last_purged,
{
    if l.entries.dom().contains(k) {
        let m = choose|m: u64| #[trigger]
            l.entries.dom().contains(m) && last == Some(l.entries[m].log_id) && (forall|j: u64|
             #[trigger]
                l.entries.dom().contains(j) ==> j <= m);
        assert(l.entries[m].log_id.index == m);
    }
}

/// Keeping some entries keeps exactly those, as they are.
pub proof fn kept_entries_stay(l: LogView, keep: spec_fn(u64) -> bool, k: u64)
    ensures
        l.only(keep).dom().contains(k) <==> l.entries.dom().contains(k) && keep(k),
        l.only(keep).dom().contains(k) ==> l.only(keep)[k] == l.entries[k],
{
}

/// What is seen of the records of this module is all that they hold, field by field.
pub proof fn store_records_are_seen_whole(
    subnet: Subnet,
    association: Association,
    floating_ip: FloatingIp,
    host_spec: HostSpec,
    network_spec: NetworkSpec,
    security_group_spec: SecurityGroupSpec,
    subnet_spec: SubnetSpec,
    floating_ip_record: FloatingIpRecord,
    port_record: PortRecord,
    topo_response: TopoResponse,
    membership: Membership,
    entry: Entry,
    stored_membership: StoredMembership,
    snapshot_meta: SnapshotMeta,
    stored_snapshot: StoredSnapshot,
)
    ensures
        subnet@.id == subnet.id@,
        subnet@.vni == subnet.vni,
        subnet@.cidr == subnet.cidr,
        subnet@.gateway == subnet.gateway,
        subnet@.pool == subnet.pool,
        subnet@.enable_dhcp == subnet.enable_dhcp,
        association@.port_id == association.port_id@,
        association@.fixed_addr == association.fixed_addr,
        floating_ip@.id == floating_ip.id@,
        floating_ip@.vni == floating_ip.vni,
        floating_ip@.subnet_id == floating_ip.subnet_id@,
        floating_ip@.addr == floating_ip.addr,
        floating_ip@.association == opt_view(floating_ip.association),
        host_spec@.id == host_spec.id@,
        host_spec@.vtep == host_spec.vtep@,
        host_spec@.underlay_iface == host_spec.underlay_iface@,
        host_spec@.underlay_mac == host_spec.underlay_mac@,
        host_spec@.encap == host_spec.encap,
        host_spec@.udp_port == host_spec.udp_port,
        host_spec@.underlay_mtu == host_spec.underlay_mtu,
        network_spec@.vni == network_spec.vni,
        network_spec@.name == network_spec.name@,
        network_spec@.subnet == network_spec.subnet@,
        network_spec@.default_action == network_spec.default_action,
        network_spec@.drop_icmp == network_spec.drop_icmp,
        security_group_spec@.name == security_group_spec.name@,
        security_group_spec@.default_action == security_group_spec.default_action,
        security_group_spec@.drop_icmp == security_group_spec.drop_icmp,
        security_group_spec@.stateful == security_group_spec.stateful,
        security_group_spec@.blocklist == views(security_group_spec.blocklist@),
        security_group_spec@.rules == views(security_group_spec.rules@),
        subnet_spec@.id == subnet_spec.id@,
        subnet_spec@.vni == subnet_spec.vni,
        subnet_spec@.cidr == subnet_spec.cidr@,
        subnet_spec@.gateway == opt_view(subnet_spec.gateway),
        subnet_spec@.pool_start == opt_view(subnet_spec.pool_start),
        subnet_spec@.pool_end == opt_view(subnet_spec.pool_end),
        subnet_spec@.enable_dhcp == subnet_spec.enable_dhcp,
        floating_ip_record@.id == floating_ip_record.id@,
        floating_ip_record@.vni == floating_ip_record.vni,
        floating_ip_record@.subnet_id == floating_ip_record.subnet_id@,
        floating_ip_record@.addr == floating_ip_record.addr@,
        floating_ip_record@.assoc_port == opt_view(floating_ip_record.assoc_port),
        floating_ip_record@.assoc_fixed == opt_view(floating_ip_record.assoc_fixed),
        port_record@.id == port_record.id@,
        port_record@.vni == port_record.vni,
        port_record@.host == port_record.host@,
        port_record@.ip == port_record.ip@,
        port_record@.mac == port_record.mac@,
        port_record@.tap == port_record.tap@,
        topo_response@.ok == topo_response.ok,
        topo_response@.error == opt_view(topo_response.error),
        topo_response@.port == opt_view(topo_response.port),
        topo_response@.addr == opt_view(topo_response.addr),
        topo_response@.floating == opt_view(topo_response.floating),
        membership@.voters == views(membership.voters@),
        membership@.nodes == membership.nodes@,
        membership@.addrs == views(membership.addrs@),
        entry@.log_id == entry.log_id,
        entry@.payload == entry.payload@,
        stored_membership@.log_id == stored_membership.log_id,
        stored_membership@.membership == stored_membership.membership@,
        snapshot_meta@.last_log_id == snapshot_meta.last_log_id,
        snapshot_meta@.last_membership == snapshot_meta.last_membership@,
        snapshot_meta@.snapshot_id == snapshot_meta.snapshot_id@,
        stored_snapshot@.meta == stored_snapshot.meta@,
        stored_snapshot@.data == stored_snapshot.data@,
{
}

/// Why a description stands for no host, network or subnet: the first of its parts that cannot be
/// read, with its text; a host with SRv6 and so without a locator; or a pool with one end.
pub proof fn unreadable_description_is_told(h: HostSpecView, n: NetworkSpecView, s: SubnetSpecView)
    ensures
        ipv4_of(h.vtep) is None ==> host_of(h) == Err::<HostView, Seq<char>>(
            "invalid vtep "@ + debug_text(h.vtep),
        ),
        ipv4_of(h.vtep) is Some && mac_from(h.underlay_mac) is None ==> host_of(h) == Err::<
            HostView,
            Seq<char>,
        >("invalid mac: "@ + "expected six pairs of hexadecimal digits"@),
        ipv4_of(h.vtep) is Some && mac_from(h.underlay_mac) is Some && h.encap == EncapName::Srv6
            ==> host_of(h) == Err::<HostView, Seq<char>>(
            "host "@ + debug_text(h.id) + ": srv6_locator and srv6 encap go together"@,
        ),
        cidr_v4_of(n.subnet) is None ==> network_of(n) == Err::<NetworkView, Seq<char>>(
            "invalid subnet: "@ + "expected an IPv4 address, a slash and a length up to 32"@,
        ),
        s.cidr.contains(':') && cidr_v6_of(s.cidr) is None ==> subnet_of(s) == Err::<
            SubnetView,
            Seq<char>,
        >(
            "invalid cidr "@ + debug_text(s.cidr) + ": "@
                + "expected an IPv6 address, a slash and a length up to 128"@,
        ),
        !s.cidr.contains(':') && cidr_v4_of(s.cidr) is None ==> subnet_of(s) == Err::<
            SubnetView,
            Seq<char>,
        >(
            "invalid cidr "@ + debug_text(s.cidr) + ": "@
                + "expected an IPv4 address, a slash and a length up to 32"@,
        ),
        ({
            let read = if s.cidr.contains(':') {
                cidr_v6_of(s.cidr) is Some
            } else {
                cidr_v4_of(s.cidr) is Some
            };
            let led = s.gateway matches Some(g) ==> ip_of(g) is Some;
            &&& read ==> (s.gateway matches Some(g) ==> (ip_of(g) is None ==> subnet_of(s) == Err::<
                SubnetView,
                Seq<char>,
            >("invalid gateway "@ + debug_text(g))))
            &&& read && led && (s.pool_start is Some) != (s.pool_end is Some) ==> subnet_of(s)
                == Err::<SubnetView, Seq<char>>(
                "subnet "@ + debug_text(s.id) + ": pool requires both start and end"@,
            )
            &&& read && led ==> (s.pool_start matches Some(a) ==> (s.pool_end matches Some(z) ==> {
                &&& ip_of(a) is None ==> subnet_of(s) == Err::<SubnetView, Seq<char>>(
                    "invalid pool start "@ + debug_text(a),
                )
                &&& ip_of(a) is Some && ip_of(z) is None ==> subnet_of(s) == Err::<
                    SubnetView,
                    Seq<char>,
                >("invalid pool end "@ + debug_text(z))
            }))
        }),
{
    find_char_properties(s.cidr, ':');
}

/// Why a request about addresses changes nothing: an address in it cannot be read, or what it is to
/// take back was not given out; the reason gives the text and names both ends of what was asked.
#[verifier::spinoff_prover]
pub proof fn refused_request_is_told_why(t: TopologyView, b: AddressBookView, req: TopoRequestView)
    ensures
        ({
            let r = address_step(t, b, req);
            &&& req matches TopoRequestView::UnbindPortAddress { port_id, subnet_id, addr } ==> {
                &&& ip_of(addr) is None ==> r == (
                    b,
                    TopoResponseView::err("invalid addr "@ + debug_text(addr)),
                )
                &&& ip_of(addr) matches Some(a) ==> (!(b.leases.dom().contains((subnet_id, a))
                    && b.leases[(subnet_id, a)] == HolderView::Port(port_id)) ==> r == (
                    b,
                    TopoResponseView::err(
                        "address "@ + addr + " was not bound to port "@ + debug_text(port_id),
                    ),
                ))
            }
            &&& req matches TopoRequestView::ReleaseAddress { subnet_id, addr } ==> {
                &&& ip_of(addr) is None ==> r == (
                    b,
                    TopoResponseView::err("invalid addr "@ + debug_text(addr)),
                )
                &&& ip_of(addr) matches Some(a) ==> (!(b.leases.dom().contains((subnet_id, a))
                    && b.leases[(subnet_id, a)] == HolderView::Standalone) ==> r == (
                    b,
                    TopoResponseView::err(
                        "address "@ + addr + " was not allocated in subnet "@ + debug_text(
                            subnet_id,
                        ),
                    ),
                ))
            }
            &&& req matches TopoRequestView::AssociateFloatingIp { fixed_addr, .. } ==> (ip_of(
                fixed_addr,
            ) is None ==> r == (
                b,
                TopoResponseView::err("invalid fixed addr "@ + debug_text(fixed_addr)),
            ))
            &&& req matches TopoRequestView::BindPortSubnet { ip: Some(s), .. } ==> (ip_of(
                s,
            ) is None ==> r == (b, TopoResponseView::err("invalid ip "@ + debug_text(s))))
            &&& req matches TopoRequestView::AllocateAddress { ip: Some(s), .. } ==> (ip_of(
                s,
            ) is None ==> r == (b, TopoResponseView::err("invalid ip "@ + debug_text(s))))
            &&& req matches TopoRequestView::AllocateFloatingIp { ip: Some(s), .. } ==> (ip_of(
                s,
            ) is None ==> r == (b, TopoResponseView::err("invalid ip "@ + debug_text(s))))
            &&& req matches TopoRequestView::ReleaseFloatingIp { id } ==> (
            !b.floating.dom().contains(id) ==> r == (
                b,
                TopoResponseView::err("no floating ip "@ + debug_text(id)),
            ))
        }),
{
}

/// Why a port is not created whose address cannot be read, and why a network is kept whose subnets
/// are still there.
#[verifier::spinoff_prover]
pub proof fn refused_change_of_fabric_is_told_why(
    t: TopologyView,
    b: AddressBookView,
    req: TopoRequestView,
    after: TopologyView,
    after_b: AddressBookView,
    out: TopoResponseView,
)
    requires
        applies(t, b, req, after, after_b, out),
    ensures
        req matches TopoRequestView::CreatePort { ip, .. } ==> (ip matches Some(s) ==> (ipv4_of(
            s,
        ) is None ==> out == TopoResponseView::err("invalid ip "@ + debug_text(s)) && after == t
            && after_b == b)),
        req matches TopoRequestView::RemoveNetwork { vni } ==> ((forall|i: int|
            0 <= i < t.ports.len() ==> (#[trigger] t.ports[i]).vni != vni)
            && t.networks.dom().contains(vni) && (exists|s: Seq<char>| #[trigger]
            b.subnets.dom().contains(s) && b.subnets[s].vni == vni) ==> out
            == TopoResponseView::err(
            "network vni "@ + decimal(vni as nat) + " still has subnets"@,
        ) && after == t && after_b == b),
{
    match req {
        TopoRequestView::RemoveNetwork { vni } => {
            first_index_properties(t.ports, on_network(vni));
        },
        _ => {},
    }
}

} // verus!
