//! The resources that the HTTP gateway serves, and their lookup.

use vstd::prelude::*;

use crate::addr::{cidr4_text, cidr6_text, fmt_mac, ip_text, ipv4_text, mac_text};
use crate::config::{ActionName, EncapName, PortRule, PortRuleView, ProtoName};
use crate::lists::{first_index, first_index_is};
use crate::messages::{or_empty, port_shown, port_to_info, text_or_empty, PortInfo};
use crate::orchestrator::{
    policy_id_of, with_id, Host, HostView, Network, NetworkView, SecurityGroup, SecurityGroupView,
    Topology,
};
use crate::store::{
    FloatingIp, FloatingIpRecord, FloatingIpRecordView, FloatingIpView, Subnet, SubnetCidr,
    SubnetView,
};
use crate::text::{clone_strings, debug_str, debug_text, decimal, push_decimal, same, views};

verus! {

/// A failed request: an HTTP status and a message.
#[derive(Debug, PartialEq, Eq)]
pub struct ApiError {
    pub status: u16,
    pub message: String,
}

/// What an [`ApiError`] holds.
#[verifier::ext_equal]
pub struct ApiErrorView {
    pub status: u16,
    pub message: Seq<char>,
}

impl View for ApiError {
    type V = ApiErrorView;

    open spec fn view(&self) -> ApiErrorView {
        ApiErrorView { status: self.status, message: self.message@ }
    }
}

/// The request cannot be understood.
pub const BAD_REQUEST: u16 = 400;

/// The caller may not do that.
pub const FORBIDDEN: u16 = 403;

/// There is no such resource.
pub const NOT_FOUND: u16 = 404;

/// The fabric is in a state that rules the request out.
pub const CONFLICT: u16 = 409;

/// The gateway failed.
pub const INTERNAL_SERVER_ERROR: u16 = 500;

impl ApiError {
    /// An error with this status and message.
    pub fn new(status: u16, message: String) -> (r: Self)
        ensures
            r@ == (ApiErrorView { status, message: message@ }),
    {
        ApiError { status, message }
    }
}

/// The view of what a request gives.
pub open spec fn api_view<T: View>(r: Result<T, ApiError>) -> Result<T::V, ApiErrorView> {
    match r {
        Ok(x) => Ok(x@),
        Err(e) => Err(e@),
    }
}

/// That there is no resource of this kind with this name.
pub open spec fn missing(kind: Seq<char>, name: Seq<char>) -> ApiErrorView {
    ApiErrorView { status: NOT_FOUND, message: kind + debug_text(name) }
}

/// Writes [`missing`].
pub fn not_found(kind: &str, name: &str) -> (r: ApiError)
    ensures
        r@ == missing(kind@, name@),
{
    let mut message = String::from_str(kind);
    message.append(debug_str(name).as_str());
    ApiError::new(NOT_FOUND, message)
}

// ---------------------------------------------------------------------------
// Words
// ---------------------------------------------------------------------------

/// The word for an action.
pub open spec fn action_word(a: ActionName) -> Seq<char> {
    match a {
        ActionName::Pass => "pass"@,
        ActionName::Drop => "drop"@,
        ActionName::Reject => "reject"@,
    }
}

/// Writes [`action_word`].
pub fn action_name_str(a: ActionName) -> (r: &'static str)
    ensures
        r@ == action_word(a),
{
    match a {
        ActionName::Pass => "pass",
        ActionName::Drop => "drop",
        ActionName::Reject => "reject",
    }
}

/// The word for a protocol.
pub open spec fn proto_word(p: ProtoName) -> Seq<char> {
    match p {
        ProtoName::Tcp => "tcp"@,
        ProtoName::Udp => "udp"@,
        ProtoName::Icmp => "icmp"@,
    }
}

/// Writes [`proto_word`].
pub fn proto_name_str(p: ProtoName) -> (r: &'static str)
    ensures
        r@ == proto_word(p),
{
    match p {
        ProtoName::Tcp => "tcp",
        ProtoName::Udp => "udp",
        ProtoName::Icmp => "icmp",
    }
}

/// The word for an encapsulation.
pub open spec fn encap_word(e: EncapName) -> Seq<char> {
    match e {
        EncapName::Vxlan => "vxlan"@,
        EncapName::Geneve => "geneve"@,
        EncapName::Srv6 => "srv6"@,
    }
}

/// Writes [`encap_word`].
pub fn encap_name_str(e: EncapName) -> (r: &'static str)
    ensures
        r@ == encap_word(e),
{
    match e {
        EncapName::Vxlan => "vxlan",
        EncapName::Geneve => "geneve",
        EncapName::Srv6 => "srv6",
    }
}

// ---------------------------------------------------------------------------
// Shapes
// ---------------------------------------------------------------------------

/// A host. The number 0 stands for the default.
#[derive(Debug, PartialEq, Eq)]
pub struct HostJson {
    pub id: String,
    pub vtep: String,
    pub underlay_iface: String,
    pub underlay_mac: String,
    pub encap: String,
    pub udp_port: u16,
    pub underlay_mtu: u16,
}

/// What a [`HostJson`] holds.
#[verifier::ext_equal]
pub struct HostJsonView {
    pub id: Seq<char>,
    pub vtep: Seq<char>,
    pub underlay_iface: Seq<char>,
    pub underlay_mac: Seq<char>,
    pub encap: Seq<char>,
    pub udp_port: u16,
    pub underlay_mtu: u16,
}

impl View for HostJson {
    type V = HostJsonView;

    open spec fn view(&self) -> HostJsonView {
        HostJsonView {
            id: self.id@,
            vtep: self.vtep@,
            underlay_iface: self.underlay_iface@,
            underlay_mac: self.underlay_mac@,
            encap: self.encap@,
            udp_port: self.udp_port,
            underlay_mtu: self.underlay_mtu,
        }
    }
}

/// A network.
#[derive(Debug, PartialEq, Eq)]
pub struct NetworkJson {
    pub vni: u32,
    pub name: String,
    pub subnet: String,
    pub default_action: String,
    pub drop_icmp: bool,
}

/// What a [`NetworkJson`] holds.
#[verifier::ext_equal]
pub struct NetworkJsonView {
    pub vni: u32,
    pub name: Seq<char>,
    pub subnet: Seq<char>,
    pub default_action: Seq<char>,
    pub drop_icmp: bool,
}

impl View for NetworkJson {
    type V = NetworkJsonView;

    open spec fn view(&self) -> NetworkJsonView {
        NetworkJsonView {
            vni: self.vni,
            name: self.name@,
            subnet: self.subnet@,
            default_action: self.default_action@,
            drop_icmp: self.drop_icmp,
        }
    }
}

/// A subnet. An empty text stands for none.
#[derive(Debug, PartialEq, Eq)]
pub struct SubnetJson {
    pub id: String,
    pub vni: u32,
    pub cidr: String,
    pub gateway: String,
    pub pool_start: String,
    pub pool_end: String,
    pub enable_dhcp: bool,
}

/// What a [`SubnetJson`] holds.
#[verifier::ext_equal]
pub struct SubnetJsonView {
    pub id: Seq<char>,
    pub vni: u32,
    pub cidr: Seq<char>,
    pub gateway: Seq<char>,
    pub pool_start: Seq<char>,
    pub pool_end: Seq<char>,
    pub enable_dhcp: bool,
}

impl View for SubnetJson {
    type V = SubnetJsonView;

    open spec fn view(&self) -> SubnetJsonView {
        SubnetJsonView {
            id: self.id@,
            vni: self.vni,
            cidr: self.cidr@,
            gateway: self.gateway@,
            pool_start: self.pool_start@,
            pool_end: self.pool_end@,
            enable_dhcp: self.enable_dhcp,
        }
    }
}

/// A rule of a security group. The empty source stands for any.
#[derive(Debug, PartialEq, Eq)]
pub struct RuleJson {
    pub proto: String,
    pub port: u16,
    pub action: String,
    pub log: bool,
    pub src: String,
}

/// What a [`RuleJson`] holds.
#[verifier::ext_equal]
pub struct RuleJsonView {
    pub proto: Seq<char>,
    pub port: u16,
    pub action: Seq<char>,
    pub log: bool,
    pub src: Seq<char>,
}

impl View for RuleJson {
    type V = RuleJsonView;

    open spec fn view(&self) -> RuleJsonView {
        RuleJsonView {
            proto: self.proto@,
            port: self.port,
            action: self.action@,
            log: self.log,
            src: self.src@,
        }
    }
}

/// A security group.
#[derive(Debug, PartialEq, Eq)]
pub struct SecurityGroupJson {
    pub name: String,
    pub policy_id: u32,
    pub default_action: String,
    pub drop_icmp: bool,
    pub stateful: bool,
    pub blocklist: Vec<String>,
    pub rules: Vec<RuleJson>,
}

/// What a [`SecurityGroupJson`] holds.
#[verifier::ext_equal]
pub struct SecurityGroupJsonView {
    pub name: Seq<char>,
    pub policy_id: u32,
    pub default_action: Seq<char>,
    pub drop_icmp: bool,
    pub stateful: bool,
    pub blocklist: Seq<Seq<char>>,
    pub rules: Seq<RuleJsonView>,
}

impl View for SecurityGroupJson {
    type V = SecurityGroupJsonView;

    open spec fn view(&self) -> SecurityGroupJsonView {
        SecurityGroupJsonView {
            name: self.name@,
            policy_id: self.policy_id,
            default_action: self.default_action@,
            drop_icmp: self.drop_icmp,
            stateful: self.stateful,
            blocklist: views(self.blocklist@),
            rules: views(self.rules@),
        }
    }
}

/// A floating address. Empty texts stand for no association.
#[derive(Debug, PartialEq, Eq)]
pub struct FloatingIpJson {
    pub id: String,
    pub vni: u32,
    pub subnet_id: String,
    pub addr: String,
    pub assoc_port: String,
    pub assoc_fixed: String,
}

/// What a [`FloatingIpJson`] holds.
#[verifier::ext_equal]
pub struct FloatingIpJsonView {
    pub id: Seq<char>,
    pub vni: u32,
    pub subnet_id: Seq<char>,
    pub addr: Seq<char>,
    pub assoc_port: Seq<char>,
    pub assoc_fixed: Seq<char>,
}

impl View for FloatingIpJson {
    type V = FloatingIpJsonView;

    open spec fn view(&self) -> FloatingIpJsonView {
        FloatingIpJsonView {
            id: self.id@,
            vni: self.vni,
            subnet_id: self.subnet_id@,
            addr: self.addr@,
            assoc_port: self.assoc_port@,
            assoc_fixed: self.assoc_fixed@,
        }
    }
}

/// The number of a choice, 0 where there is none.
pub open spec fn number_or_zero(o: Option<u16>) -> u16 {
    match o {
        Some(n) => n,
        None => 0,
    }
}

fn or_zero(o: Option<u16>) -> (r: u16)
    ensures
        r == number_or_zero(o),
{
    match o {
        Some(n) => n,
        None => 0,
    }
}

/// How a host is shown.
pub open spec fn host_json(h: HostView) -> HostJsonView {
    HostJsonView {
        id: h.id,
        vtep: ipv4_text(h.vtep_ip),
        underlay_iface: h.underlay_iface,
        underlay_mac: mac_text(h.underlay_mac),
        encap: encap_word(h.encap),
        udp_port: number_or_zero(h.udp_port),
        underlay_mtu: number_or_zero(h.underlay_mtu),
    }
}

/// Shows a host.
pub fn show_host(h: &Host) -> (r: HostJson)
    ensures
        r@ == host_json(h@),
{
    HostJson {
        id: h.id.clone(),
        vtep: h.vtep_ip.to_string(),
        underlay_iface: h.underlay_iface.clone(),
        underlay_mac: fmt_mac(h.underlay_mac),
        encap: String::from_str(encap_name_str(h.encap)),
        udp_port: or_zero(h.udp_port),
        underlay_mtu: or_zero(h.underlay_mtu),
    }
}

/// Shows hosts, in order.
pub fn list_hosts(xs: &Vec<Host>) -> (r: Vec<HostJson>)
    ensures
        views(r@) == views(xs@).map_values(|x: HostView| host_json(x)),
{
    let mut r: Vec<HostJson> = Vec::new();
    for i in 0..xs.len()
        invariant
            r@.len() == i,
            forall|j: int| 0 <= j < i ==> #[trigger] r@[j]@ == host_json(xs@[j]@),
    {
        r.push(show_host(&xs[i]));
    }
    assert(views(r@) =~= views(xs@).map_values(|x: HostView| host_json(x)));
    r
}

/// How a network is shown.
pub open spec fn network_json(n: NetworkView) -> NetworkJsonView {
    NetworkJsonView {
        vni: n.vni,
        name: n.name,
        subnet: cidr4_text(n.subnet),
        default_action: action_word(n.default_action),
        drop_icmp: n.drop_icmp,
    }
}

/// Shows a network.
pub fn show_network(n: &Network) -> (r: NetworkJson)
    ensures
        r@ == network_json(n@),
{
    NetworkJson {
        vni: n.vni,
        name: n.name.clone(),
        subnet: n.subnet.to_string(),
        default_action: String::from_str(action_name_str(n.default_action)),
        drop_icmp: n.drop_icmp,
    }
}

/// Shows networks, in order.
pub fn list_networks(xs: &Vec<Network>) -> (r: Vec<NetworkJson>)
    ensures
        views(r@) == views(xs@).map_values(|x: NetworkView| network_json(x)),
{
    let mut r: Vec<NetworkJson> = Vec::new();
    for i in 0..xs.len()
        invariant
            r@.len() == i,
            forall|j: int| 0 <= j < i ==> #[trigger] r@[j]@ == network_json(xs@[j]@),
    {
        r.push(show_network(&xs[i]));
    }
    assert(views(r@) =~= views(xs@).map_values(|x: NetworkView| network_json(x)));
    r
}

/// The text of a prefix of either family.
pub open spec fn subnet_cidr_text(c: SubnetCidr) -> Seq<char> {
    match c {
        SubnetCidr::V4(c) => cidr4_text(c),
        SubnetCidr::V6(c) => cidr6_text(c),
    }
}

/// Writes [`subnet_cidr_text`].
pub fn subnet_cidr_to_string(c: &SubnetCidr) -> (r: String)
    ensures
        r@ == subnet_cidr_text(*c),
{
    match c {
        SubnetCidr::V4(c) => c.to_string(),
        SubnetCidr::V6(c) => c.to_string(),
    }
}

/// How a subnet is shown.
pub open spec fn subnet_json(s: SubnetView) -> SubnetJsonView {
    SubnetJsonView {
        id: s.id,
        vni: s.vni,
        cidr: subnet_cidr_text(s.cidr),
        gateway: match s.gateway {
            Some(g) => ip_text(g),
            None => Seq::empty(),
        },
        pool_start: match s.pool {
            Some(p) => ip_text(p.start),
            None => Seq::empty(),
        },
        pool_end: match s.pool {
            Some(p) => ip_text(p.end),
            None => Seq::empty(),
        },
        enable_dhcp: s.enable_dhcp,
    }
}

/// Shows a subnet.
pub fn show_subnet(s: &Subnet) -> (r: SubnetJson)
    ensures
        r@ == subnet_json(s@),
{
    SubnetJson {
        id: s.id.clone(),
        vni: s.vni,
        cidr: subnet_cidr_to_string(&s.cidr),
        gateway: match s.gateway {
            Some(g) => g.to_string(),
            None => String::new(),
        },
        pool_start: match s.pool {
            Some(p) => p.start.to_string(),
            None => String::new(),
        },
        pool_end: match s.pool {
            Some(p) => p.end.to_string(),
            None => String::new(),
        },
        enable_dhcp: s.enable_dhcp,
    }
}

/// Shows subnets, in order.
pub fn list_subnets(xs: &Vec<Subnet>) -> (r: Vec<SubnetJson>)
    ensures
        views(r@) == views(xs@).map_values(|x: SubnetView| subnet_json(x)),
{
    let mut r: Vec<SubnetJson> = Vec::new();
    for i in 0..xs.len()
        invariant
            r@.len() == i,
            forall|j: int| 0 <= j < i ==> #[trigger] r@[j]@ == subnet_json(xs@[j]@),
    {
        r.push(show_subnet(&xs[i]));
    }
    assert(views(r@) =~= views(xs@).map_values(|x: SubnetView| subnet_json(x)));
    r
}

/// How a rule is shown.
pub open spec fn rule_json(r: PortRuleView) -> RuleJsonView {
    RuleJsonView {
        proto: proto_word(r.proto),
        port: r.port,
        action: action_word(r.action),
        log: r.log,
        src: text_or_empty(r.src),
    }
}

/// Shows a rule.
pub fn show_rule(p: &PortRule) -> (r: RuleJson)
    ensures
        r@ == rule_json(p@),
{
    RuleJson {
        proto: String::from_str(proto_name_str(p.proto)),
        port: p.port,
        action: String::from_str(action_name_str(p.action)),
        log: p.log,
        src: or_empty(&p.src),
    }
}

/// Shows rules, in order.
pub fn show_rules(xs: &Vec<PortRule>) -> (r: Vec<RuleJson>)
    ensures
        views(r@) == views(xs@).map_values(|x: PortRuleView| rule_json(x)),
{
    let mut r: Vec<RuleJson> = Vec::new();
    for i in 0..xs.len()
        invariant
            r@.len() == i,
            forall|j: int| 0 <= j < i ==> #[trigger] r@[j]@ == rule_json(xs@[j]@),
    {
        r.push(show_rule(&xs[i]));
    }
    assert(views(r@) =~= views(xs@).map_values(|x: PortRuleView| rule_json(x)));
    r
}

/// How a security group is shown.
pub open spec fn group_json(g: SecurityGroupView) -> SecurityGroupJsonView {
    SecurityGroupJsonView {
        name: g.name,
        policy_id: policy_id_of(g.name),
        default_action: action_word(g.default_action),
        drop_icmp: g.drop_icmp,
        stateful: g.stateful,
        blocklist: g.blocklist,
        rules: g.rules.map_values(|x: PortRuleView| rule_json(x)),
    }
}

/// Shows a security group.
pub fn show_security_group(g: &SecurityGroup) -> (r: SecurityGroupJson)
    ensures
        r@ == group_json(g@),
{
    SecurityGroupJson {
        name: g.name.clone(),
        policy_id: g.policy_id(),
        default_action: String::from_str(action_name_str(g.default_action)),
        drop_icmp: g.drop_icmp,
        stateful: g.stateful,
        blocklist: clone_strings(&g.blocklist),
        rules: show_rules(&g.rules),
    }
}

/// Shows security groups, in order.
pub fn list_groups(xs: &Vec<SecurityGroup>) -> (r: Vec<SecurityGroupJson>)
    ensures
        views(r@) == views(xs@).map_values(|x: SecurityGroupView| group_json(x)),
{
    let mut r: Vec<SecurityGroupJson> = Vec::new();
    for i in 0..xs.len()
        invariant
            r@.len() == i,
            forall|j: int| 0 <= j < i ==> #[trigger] r@[j]@ == group_json(xs@[j]@),
    {
        r.push(show_security_group(&xs[i]));
    }
    assert(views(r@) =~= views(xs@).map_values(|x: SecurityGroupView| group_json(x)));
    r
}

/// How a floating address is shown.
pub open spec fn floating_json(f: FloatingIpView) -> FloatingIpJsonView {
    FloatingIpJsonView {
        id: f.id,
        vni: f.vni,
        subnet_id: f.subnet_id,
        addr: ip_text(f.addr),
        assoc_port: match f.association {
            Some(a) => a.port_id,
            None => Seq::empty(),
        },
        assoc_fixed: match f.association {
            Some(a) => ip_text(a.fixed_addr),
            None => Seq::empty(),
        },
    }
}

/// Shows a floating address.
pub fn show_floating_ip(f: &FloatingIp) -> (r: FloatingIpJson)
    ensures
        r@ == floating_json(f@),
{
    FloatingIpJson {
        id: f.id.clone(),
        vni: f.vni,
        subnet_id: f.subnet_id.clone(),
        addr: f.addr.to_string(),
        assoc_port: match &f.association {
            Some(a) => a.port_id.clone(),
            None => String::new(),
        },
        assoc_fixed: match &f.association {
            Some(a) => a.fixed_addr.to_string(),
            None => String::new(),
        },
    }
}

/// Shows floating addresses, in order.
pub fn list_floating_ips(xs: &Vec<FloatingIp>) -> (r: Vec<FloatingIpJson>)
    ensures
        views(r@) == views(xs@).map_values(|x: FloatingIpView| floating_json(x)),
{
    let mut r: Vec<FloatingIpJson> = Vec::new();
    for i in 0..xs.len()
        invariant
            r@.len() == i,
            forall|j: int| 0 <= j < i ==> #[trigger] r@[j]@ == floating_json(xs@[j]@),
    {
        r.push(show_floating_ip(&xs[i]));
    }
    assert(views(r@) =~= views(xs@).map_values(|x: FloatingIpView| floating_json(x)));
    r
}

/// How the floating address of a response is shown.
pub open spec fn floating_record_json(f: FloatingIpRecordView) -> FloatingIpJsonView {
    FloatingIpJsonView {
        id: f.id,
        vni: f.vni,
        subnet_id: f.subnet_id,
        addr: f.addr,
        assoc_port: text_or_empty(f.assoc_port),
        assoc_fixed: text_or_empty(f.assoc_fixed),
    }
}

/// Shows the floating address of a response.
pub fn show_floating_record(f: &FloatingIpRecord) -> (r: FloatingIpJson)
    ensures
        r@ == floating_record_json(f@),
{
    FloatingIpJson {
        id: f.id.clone(),
        vni: f.vni,
        subnet_id: f.subnet_id.clone(),
        addr: f.addr.clone(),
        assoc_port: or_empty(&f.assoc_port),
        assoc_fixed: or_empty(&f.assoc_fixed),
    }
}

// ---------------------------------------------------------------------------
// Lookup
// ---------------------------------------------------------------------------

/// The host with the id `id`, as it is shown.
pub fn get_host(t: &Topology, id: &str) -> (r: Result<HostJson, ApiError>)
    requires
        t.inv(),
    ensures
        api_view(r) == (if t@.hosts.dom().contains(id@) {
            Ok(host_json(t@.hosts[id@]))
        } else {
            Err(missing("no host with id "@, id@))
        }),
{
    match t.host(id) {
        Some(h) => Ok(show_host(h)),
        None => Err(not_found("no host with id ", id)),
    }
}

/// The network with the number `vni`, as it is shown.
pub fn get_network(t: &Topology, vni: u32) -> (r: Result<NetworkJson, ApiError>)
    requires
        t.inv(),
    ensures
        api_view(r) == (if t@.networks.dom().contains(vni) {
            Ok(network_json(t@.networks[vni]))
        } else {
            Err(
                ApiErrorView {
                    status: NOT_FOUND,
                    message: "no network with vni "@ + decimal(vni as nat),
                },
            )
        }),
{
    match t.network(vni) {
        Some(n) => Ok(show_network(n)),
        None => {
            let mut message = String::from_str("no network with vni ");
            push_decimal(&mut message, vni as u64);
            Err(ApiError::new(NOT_FOUND, message))
        },
    }
}

/// The first port with the id `id`, as it is shown.
pub fn get_port(t: &Topology, id: &str) -> (r: Result<PortInfo, ApiError>)
    ensures
        api_view(r) == ({
            let i = first_index(t@.ports, with_id(id@));
            if i < t@.ports.len() {
                Ok(port_shown(t@.ports[i]))
            } else {
                Err(missing("no port with id "@, id@))
            }
        }),
{
    let ports = t.ports();
    for i in 0..ports.len()
        invariant
            views(ports@) == t@.ports,
            forall|j: int| 0 <= j < i ==> !with_id(id@)(#[trigger] t@.ports[j]),
    {
        assert(t@.ports[i as int] == ports@[i as int]@);
        if same(ports[i].id.as_str(), id) {
            proof {
                first_index_is(t@.ports, with_id(id@), i as int);
            }
            return Ok(port_to_info(&ports[i]));
        }
    }
    proof {
        first_index_is(t@.ports, with_id(id@), t@.ports.len() as int);
    }
    Err(not_found("no port with id ", id))
}

/// The security group named `name`, as it is shown.
pub fn get_security_group(t: &Topology, name: &str) -> (r: Result<SecurityGroupJson, ApiError>)
    requires
        t.inv(),
    ensures
        api_view(r) == (if t@.security_groups.dom().contains(name@) {
            Ok(group_json(t@.security_groups[name@]))
        } else {
            Err(missing("no security group named "@, name@))
        }),
{
    match t.security_group(name) {
        Some(g) => Ok(show_security_group(g)),
        None => Err(not_found("no security group named ", name)),
    }
}

/// The first subnet with the id `id`, as it is shown.
pub fn get_subnet(xs: &Vec<Subnet>, id: &str) -> (r: Result<SubnetJson, ApiError>)
    ensures
        api_view(r) == ({
            let i = first_index(views(xs@), |x: SubnetView| x.id == id@);
            if i < xs@.len() {
                Ok(subnet_json(xs@[i]@))
            } else {
                Err(missing("no subnet with id "@, id@))
            }
        }),
{
    let ghost f = |x: SubnetView| x.id == id@;
    for i in 0..xs.len()
        invariant
            f == (|x: SubnetView| x.id == id@),
            forall|j: int| 0 <= j < i ==> !f(#[trigger] views(xs@)[j]),
    {
        assert(views(xs@)[i as int] == xs@[i as int]@);
        if same(xs[i].id.as_str(), id) {
            proof {
                first_index_is(views(xs@), f, i as int);
            }
            return Ok(show_subnet(&xs[i]));
        }
    }
    proof {
        first_index_is(views(xs@), f, xs@.len() as int);
    }
    Err(not_found("no subnet with id ", id))
}

/// The first floating address with the id `id`, as it is shown.
pub fn get_floating_ip(xs: &Vec<FloatingIp>, id: &str) -> (r: Result<FloatingIpJson, ApiError>)
    ensures
        api_view(r) == ({
            let i = first_index(views(xs@), |x: FloatingIpView| x.id == id@);
            if i < xs@.len() {
                Ok(floating_json(xs@[i]@))
            } else {
                Err(missing("no floating ip with id "@, id@))
            }
        }),
{
    let ghost f = |x: FloatingIpView| x.id == id@;
    for i in 0..xs.len()
        invariant
            f == (|x: FloatingIpView| x.id == id@),
            forall|j: int| 0 <= j < i ==> !f(#[trigger] views(xs@)[j]),
    {
        assert(views(xs@)[i as int] == xs@[i as int]@);
        if same(xs[i].id.as_str(), id) {
            proof {
                first_index_is(views(xs@), f, i as int);
            }
            return Ok(show_floating_ip(&xs[i]));
        }
    }
    proof {
        first_index_is(views(xs@), f, xs@.len() as int);
    }
    Err(not_found("no floating ip with id ", id))
}

// ---------------------------------------------------------------------------
// Laws
// ---------------------------------------------------------------------------

/// A word tells what it stands for, and different things have different words.
pub proof fn words_tell_apart(a: ActionName, p: ProtoName, e: EncapName)
    ensures
        action_word(a) == "pass"@ <==> a == ActionName::Pass,
        action_word(a) == "drop"@ <==> a == ActionName::Drop,
        action_word(a) == "reject"@ <==> a == ActionName::Reject,
        proto_word(p) == "tcp"@ <==> p == ProtoName::Tcp,
        proto_word(p) == "udp"@ <==> p == ProtoName::Udp,
        proto_word(p) == "icmp"@ <==> p == ProtoName::Icmp,
        encap_word(e) == "vxlan"@ <==> e == EncapName::Vxlan,
        encap_word(e) == "geneve"@ <==> e == EncapName::Geneve,
        encap_word(e) == "srv6"@ <==> e == EncapName::Srv6,
{
    reveal_strlit("pass");
    reveal_strlit("drop");
    reveal_strlit("reject");
    reveal_strlit("tcp");
    reveal_strlit("udp");
    reveal_strlit("icmp");
    reveal_strlit("vxlan");
    reveal_strlit("geneve");
    reveal_strlit("srv6");
    assert("pass"@[0] == 'p' && "drop"@[0] == 'd' && "reject"@[0] == 'r');
    assert("tcp"@[0] == 't' && "udp"@[0] == 'u' && "icmp"@[0] == 'i');
    assert("vxlan"@[0] == 'v' && "geneve"@[0] == 'g' && "srv6"@[0] == 's');
}

/// A host is shown as it is; zero stands for a number that is not set.
pub proof fn host_is_shown_as_it_is(h: HostView)
    ensures
        ({
            let s = host_json(h);
            &&& s.id == h.id
            &&& s.vtep == ipv4_text(h.vtep_ip)
            &&& s.underlay_iface == h.underlay_iface
            &&& s.underlay_mac == mac_text(h.underlay_mac)
            &&& s.encap == encap_word(h.encap)
            &&& h.udp_port matches Some(n) ==> s.udp_port == n
            &&& h.udp_port is None ==> s.udp_port == 0
            &&& h.underlay_mtu matches Some(n) ==> s.underlay_mtu == n
            &&& h.underlay_mtu is None ==> s.underlay_mtu == 0
        }),
{
}

/// A network is shown as it is.
pub proof fn network_is_shown_as_it_is(n: NetworkView)
    ensures
        ({
            let s = network_json(n);
            &&& s.vni == n.vni
            &&& s.name == n.name
            &&& s.subnet == cidr4_text(n.subnet)
            &&& s.default_action == action_word(n.default_action)
            &&& s.drop_icmp == n.drop_icmp
        }),
{
}

/// A subnet is shown as it is; an empty text stands for what it does not have.
pub proof fn subnet_is_shown_as_it_is(x: SubnetView)
    ensures
        ({
            let s = subnet_json(x);
            &&& s.id == x.id
            &&& s.vni == x.vni
            &&& x.cidr matches SubnetCidr::V4(c) ==> s.cidr == cidr4_text(c)
            &&& x.cidr matches SubnetCidr::V6(c) ==> s.cidr == cidr6_text(c)
            &&& x.gateway matches Some(g) ==> s.gateway == ip_text(g)
            &&& x.gateway is None ==> s.gateway.len() == 0
            &&& x.pool matches Some(p) ==> s.pool_start == ip_text(p.start) && s.pool_end == ip_text(
                p.end,
            )
            &&& x.pool is None ==> s.pool_start.len() == 0 && s.pool_end.len() == 0
            &&& s.enable_dhcp == x.enable_dhcp
        }),
{
}

/// A security group is shown as it is, with its rules in their order.
pub proof fn group_is_shown_as_it_is(g: SecurityGroupView)
    ensures
        ({
            let s = group_json(g);
            &&& s.name == g.name
            &&& s.policy_id == policy_id_of(g.name)
            &&& s.default_action == action_word(g.default_action)
            &&& s.drop_icmp == g.drop_icmp
            &&& s.stateful == g.stateful
            &&& s.blocklist == g.blocklist
            &&& s.rules.len() == g.rules.len()
            &&& forall|i: int|
                0 <= i < g.rules.len() ==> {
                    let x = #[trigger] g.rules[i];
                    let r = s.rules[i];
                    &&& r.proto == proto_word(x.proto)
                    &&& r.port == x.port
                    &&& r.action == action_word(x.action)
                    &&& r.log == x.log
                    &&& x.src matches Some(t) ==> r.src == t
                    &&& x.src is None ==> r.src.len() == 0
                }
        }),
{
}

/// A floating address is shown as it is, from the book and from a response alike; empty texts stand
/// for no association.
pub proof fn floating_is_shown_as_it_is(f: FloatingIpView, r: FloatingIpRecordView)
    ensures
        ({
            let s = floating_json(f);
            &&& s.id == f.id
            &&& s.vni == f.vni
            &&& s.subnet_id == f.subnet_id
            &&& s.addr == ip_text(f.addr)
            &&& f.association matches Some(a) ==> s.assoc_port == a.port_id && s.assoc_fixed
                == ip_text(a.fixed_addr)
            &&& f.association is None ==> s.assoc_port.len() == 0 && s.assoc_fixed.len() == 0
        }),
        ({
            let s = floating_record_json(r);
            &&& s.id == r.id
            &&& s.vni == r.vni
            &&& s.subnet_id == r.subnet_id
            &&& s.addr == r.addr
            &&& r.assoc_port matches Some(t) ==> s.assoc_port == t
            &&& r.assoc_port is None ==> s.assoc_port.len() == 0
            &&& r.assoc_fixed matches Some(t) ==> s.assoc_fixed == t
            &&& r.assoc_fixed is None ==> s.assoc_fixed.len() == 0
        }),
{
}

/// The statuses of the answers.
pub proof fn statuses_are_those_of_http()
    ensures
        BAD_REQUEST == 400,
        FORBIDDEN == 403,
        NOT_FOUND == 404,
        CONFLICT == 409,
        INTERNAL_SERVER_ERROR == 500,
{
}

/// What is seen of the records of this module is all that they hold, field by field.
pub proof fn resources_records_are_seen_whole(
    api_error: ApiError,
    host_json: HostJson,
    network_json: NetworkJson,
    subnet_json: SubnetJson,
    rule_json: RuleJson,
    security_group_json: SecurityGroupJson,
    floating_ip_json: FloatingIpJson,
)
    ensures
        api_error@.status == api_error.status,
        api_error@.message == api_error.message@,
        host_json@.id == host_json.id@,
        host_json@.vtep == host_json.vtep@,
        host_json@.underlay_iface == host_json.underlay_iface@,
        host_json@.underlay_mac == host_json.underlay_mac@,
        host_json@.encap == host_json.encap@,
        host_json@.udp_port == host_json.udp_port,
        host_json@.underlay_mtu == host_json.underlay_mtu,
        network_json@.vni == network_json.vni,
        network_json@.name == network_json.name@,
        network_json@.subnet == network_json.subnet@,
        network_json@.default_action == network_json.default_action@,
        network_json@.drop_icmp == network_json.drop_icmp,
        subnet_json@.id == subnet_json.id@,
        subnet_json@.vni == subnet_json.vni,
        subnet_json@.cidr == subnet_json.cidr@,
        subnet_json@.gateway == subnet_json.gateway@,
        subnet_json@.pool_start == subnet_json.pool_start@,
        subnet_json@.pool_end == subnet_json.pool_end@,
        subnet_json@.enable_dhcp == subnet_json.enable_dhcp,
        rule_json@.proto == rule_json.proto@,
        rule_json@.port == rule_json.port,
        rule_json@.action == rule_json.action@,
        rule_json@.log == rule_json.log,
        rule_json@.src == rule_json.src@,
        security_group_json@.name == security_group_json.name@,
        security_group_json@.policy_id == security_group_json.policy_id,
        security_group_json@.default_action == security_group_json.default_action@,
        security_group_json@.drop_icmp == security_group_json.drop_icmp,
        security_group_json@.stateful == security_group_json.stateful,
        security_group_json@.blocklist == views(security_group_json.blocklist@),
        security_group_json@.rules == views(security_group_json.rules@),
        floating_ip_json@.id == floating_ip_json.id@,
        floating_ip_json@.vni == floating_ip_json.vni,
        floating_ip_json@.subnet_id == floating_ip_json.subnet_id@,
        floating_ip_json@.addr == floating_ip_json.addr@,
        floating_ip_json@.assoc_port == floating_ip_json.assoc_port@,
        floating_ip_json@.assoc_fixed == floating_ip_json.assoc_fixed@,
{
}

} // verus!
