//! The messages of the administrative interface, and what they become.

use vstd::prelude::*;

use crate::addr::{fmt_mac, ipv4_text, mac_text};
use crate::config::{ActionName, EncapName, PortRule, PortRuleView, ProtoName};
use crate::orchestrator::{policy_id_of, Port, PortView, SecurityGroup, SecurityGroupView};
use crate::store::{
    HostSpec, HostSpecView, NetworkSpec, NetworkSpecView, PortRecord, PortRecordView,
    SecurityGroupSpec, SecurityGroupSpecView, SubnetSpec, SubnetSpecView,
};
use crate::text::{clone_strings, opt_view, views};

verus! {

/// An action on the wire. There is no third one: a rejection travels as a drop.
#[derive(Clone, Copy, Debug, PartialEq, Eq, Structural)]
pub enum WireAction {
    Pass,
    Drop,
}

/// A host to register. The number 0 stands for no choice.
#[derive(Debug, PartialEq, Eq)]
pub struct HostMessage {
    pub id: String,
    pub vtep: String,
    pub underlay_iface: String,
    pub underlay_mac: String,
    pub encap: EncapName,
    pub udp_port: u32,
    pub underlay_mtu: u32,
}

/// What a [`HostMessage`] holds.
#[verifier::ext_equal]
pub struct HostMessageView {
    pub id: Seq<char>,
    pub vtep: Seq<char>,
    pub underlay_iface: Seq<char>,
    pub underlay_mac: Seq<char>,
    pub encap: EncapName,
    pub udp_port: u32,
    pub underlay_mtu: u32,
}

impl View for HostMessage {
    type V = HostMessageView;

    open spec fn view(&self) -> HostMessageView {
        HostMessageView {
            id: self.id@,
            vtep: self.vtep@,
            underlay_iface: self.underlay_iface@,
            underlay_mac: self.underlay_mac@,
            encap: self.encap,
            udp_port: self.udp_port,
            underlay_mtu: self.underlay_mtu,
        }
    }
}

/// A network to define.
#[derive(Debug, PartialEq, Eq)]
pub struct NetworkMessage {
    pub vni: u32,
    pub name: String,
    pub subnet: String,
    pub default_action: WireAction,
    pub drop_icmp: bool,
}

/// What a [`NetworkMessage`] holds.
#[verifier::ext_equal]
pub struct NetworkMessageView {
    pub vni: u32,
    pub name: Seq<char>,
    pub subnet: Seq<char>,
    pub default_action: WireAction,
    pub drop_icmp: bool,
}

impl View for NetworkMessage {
    type V = NetworkMessageView;

    open spec fn view(&self) -> NetworkMessageView {
        NetworkMessageView {
            vni: self.vni,
            name: self.name@,
            subnet: self.subnet@,
            default_action: self.default_action,
            drop_icmp: self.drop_icmp,
        }
    }
}

/// A rule of a security group. The empty source stands for any.
#[derive(Debug, PartialEq, Eq)]
pub struct RuleMessage {
    pub proto: ProtoName,
    pub port: u32,
    pub action: WireAction,
    pub log: bool,
    pub src: String,
}

/// What a [`RuleMessage`] holds.
#[verifier::ext_equal]
pub struct RuleMessageView {
    pub proto: ProtoName,
    pub port: u32,
    pub action: WireAction,
    pub log: bool,
    pub src: Seq<char>,
}

impl View for RuleMessage {
    type V = RuleMessageView;

    open spec fn view(&self) -> RuleMessageView {
        RuleMessageView {
            proto: self.proto,
            port: self.port,
            action: self.action,
            log: self.log,
            src: self.src@,
        }
    }
}

/// A security group to define.
#[derive(Debug, PartialEq, Eq)]
pub struct SecurityGroupMessage {
    pub name: String,
    pub default_action: WireAction,
    pub drop_icmp: bool,
    pub stateful: bool,
    pub blocklist: Vec<String>,
    pub rules: Vec<RuleMessage>,
}

/// What a [`SecurityGroupMessage`] holds.
#[verifier::ext_equal]
pub struct SecurityGroupMessageView {
    pub name: Seq<char>,
    pub default_action: WireAction,
    pub drop_icmp: bool,
    pub stateful: bool,
    pub blocklist: Seq<Seq<char>>,
    pub rules: Seq<RuleMessageView>,
}

impl View for SecurityGroupMessage {
    type V = SecurityGroupMessageView;

    open spec fn view(&self) -> SecurityGroupMessageView {
        SecurityGroupMessageView {
            name: self.name@,
            default_action: self.default_action,
            drop_icmp: self.drop_icmp,
            stateful: self.stateful,
            blocklist: views(self.blocklist@),
            rules: views(self.rules@),
        }
    }
}

/// A security group as it is listed.
#[derive(Debug, PartialEq, Eq)]
pub struct SecurityGroupInfo {
    pub name: String,
    pub policy_id: u32,
    pub default_action: WireAction,
    pub drop_icmp: bool,
    pub stateful: bool,
    pub blocklist: Vec<String>,
    pub rules: Vec<RuleMessage>,
}

/// What a [`SecurityGroupInfo`] holds.
#[verifier::ext_equal]
pub struct SecurityGroupInfoView {
    pub name: Seq<char>,
    pub policy_id: u32,
    pub default_action: WireAction,
    pub drop_icmp: bool,
    pub stateful: bool,
    pub blocklist: Seq<Seq<char>>,
    pub rules: Seq<RuleMessageView>,
}

impl View for SecurityGroupInfo {
    type V = SecurityGroupInfoView;

    open spec fn view(&self) -> SecurityGroupInfoView {
        SecurityGroupInfoView {
            name: self.name@,
            policy_id: self.policy_id,
            default_action: self.default_action,
            drop_icmp: self.drop_icmp,
            stateful: self.stateful,
            blocklist: views(self.blocklist@),
            rules: views(self.rules@),
        }
    }
}

/// A subnet to define. An empty text stands for no choice.
#[derive(Debug, PartialEq, Eq)]
pub struct SubnetMessage {
    pub id: String,
    pub vni: u32,
    pub cidr: String,
    pub gateway: String,
    pub pool_start: String,
    pub pool_end: String,
    pub enable_dhcp: bool,
}

/// What a [`SubnetMessage`] holds.
#[verifier::ext_equal]
pub struct SubnetMessageView {
    pub id: Seq<char>,
    pub vni: u32,
    pub cidr: Seq<char>,
    pub gateway: Seq<char>,
    pub pool_start: Seq<char>,
    pub pool_end: Seq<char>,
    pub enable_dhcp: bool,
}

impl View for SubnetMessage {
    type V = SubnetMessageView;

    open spec fn view(&self) -> SubnetMessageView {
        SubnetMessageView {
            id: self.id@,
            vni: self.vni,
            cidr: self.cidr@,
            gateway: self.gateway@,
            pool_start: self.pool_start@,
            pool_end: self.pool_end@,
            enable_dhcp: self.enable_dhcp,
        }
    }
}

/// A port as it is listed.
#[derive(Debug, PartialEq, Eq)]
pub struct PortInfo {
    pub id: String,
    pub vni: u32,
    pub host: String,
    pub ip: String,
    pub mac: String,
    pub tap: String,
}

/// What a [`PortInfo`] holds.
#[verifier::ext_equal]
pub struct PortInfoView {
    pub id: Seq<char>,
    pub vni: u32,
    pub host: Seq<char>,
    pub ip: Seq<char>,
    pub mac: Seq<char>,
    pub tap: Seq<char>,
}

impl View for PortInfo {
    type V = PortInfoView;

    open spec fn view(&self) -> PortInfoView {
        PortInfoView {
            id: self.id@,
            vni: self.vni,
            host: self.host@,
            ip: self.ip@,
            mac: self.mac@,
            tap: self.tap@,
        }
    }
}

// ---------------------------------------------------------------------------
// Numbers and actions
// ---------------------------------------------------------------------------

/// The low 16 bits of a number.
pub open spec fn low16_of(n: u32) -> u16 {
    (n % 0x1_0000) as u16
}

/// Computes [`low16_of`].
pub fn low16(n: u32) -> (r: u16)
    ensures
        r == low16_of(n),
        n < 0x1_0000 ==> r == n,
{
    (n % 0x1_0000) as u16
}

/// A number that is a choice unless it is 0.
pub open spec fn chosen_number(n: u32) -> Option<u16> {
    if n == 0 {
        None
    } else {
        Some(low16_of(n))
    }
}

fn choose_number(n: u32) -> (r: Option<u16>)
    ensures
        r == chosen_number(n),
{
    if n == 0 {
        None
    } else {
        let value: u16 = low16(n);
        Some(value)
    }
}

/// A text that is a choice unless it is empty.
pub open spec fn chosen_text(s: Seq<char>) -> Option<Seq<char>> {
    if s.len() == 0 {
        None
    } else {
        Some(s)
    }
}

/// A copy of `s` unless it is empty.
pub fn choose_text(s: &str) -> (r: Option<String>)
    ensures
        opt_view(r) == chosen_text(s@),
{
    if s.unicode_len() == 0 {
        None
    } else {
        Some(String::from_str(s))
    }
}

/// The text of a choice, empty where there is none.
pub open spec fn text_or_empty(o: Option<Seq<char>>) -> Seq<char> {
    match o {
        Some(s) => s,
        None => Seq::empty(),
    }
}

/// A copy of the text of a choice, empty where there is none.
pub fn or_empty(o: &Option<String>) -> (r: String)
    ensures
        r@ == text_or_empty(opt_view(*o)),
{
    match o {
        Some(s) => s.clone(),
        None => String::new(),
    }
}

/// The action that a message asks for.
pub open spec fn action_asked(a: WireAction) -> ActionName {
    match a {
        WireAction::Pass => ActionName::Pass,
        WireAction::Drop => ActionName::Drop,
    }
}

/// Computes [`action_asked`].
pub fn action_from_proto(a: WireAction) -> (r: ActionName)
    ensures
        r == action_asked(a),
{
    match a {
        WireAction::Pass => ActionName::Pass,
        WireAction::Drop => ActionName::Drop,
    }
}

/// The action that goes on the wire: a rejection narrows to a drop.
pub open spec fn action_sent(a: ActionName) -> WireAction {
    match a {
        ActionName::Pass => WireAction::Pass,
        ActionName::Drop => WireAction::Drop,
        ActionName::Reject => WireAction::Drop,
    }
}

/// Computes [`action_sent`].
pub fn action_to_proto(a: ActionName) -> (r: WireAction)
    ensures
        r == action_sent(a),
{
    match a {
        ActionName::Pass => WireAction::Pass,
        ActionName::Drop => WireAction::Drop,
        ActionName::Reject => WireAction::Drop,
    }
}

// ---------------------------------------------------------------------------
// Requests
// ---------------------------------------------------------------------------

/// The host that a message describes.
pub open spec fn host_asked(m: HostMessageView) -> HostSpecView {
    HostSpecView {
        id: m.id,
        vtep: m.vtep,
        underlay_iface: m.underlay_iface,
        underlay_mac: m.underlay_mac,
        encap: m.encap,
        udp_port: chosen_number(m.udp_port),
        underlay_mtu: chosen_number(m.underlay_mtu),
    }
}

/// Turns a message into the host of a request.
pub fn raft_host_spec(m: &HostMessage) -> (r: HostSpec)
    ensures
        r@ == host_asked(m@),
{
    HostSpec {
        id: m.id.clone(),
        vtep: m.vtep.clone(),
        underlay_iface: m.underlay_iface.clone(),
        underlay_mac: m.underlay_mac.clone(),
        encap: m.encap,
        udp_port: choose_number(m.udp_port),
        underlay_mtu: choose_number(m.underlay_mtu),
    }
}

/// The network that a message describes.
pub open spec fn network_asked(m: NetworkMessageView) -> NetworkSpecView {
    NetworkSpecView {
        vni: m.vni,
        name: m.name,
        subnet: m.subnet,
        default_action: action_asked(m.default_action),
        drop_icmp: m.drop_icmp,
    }
}

/// Turns a message into the network of a request.
pub fn raft_network_spec(m: &NetworkMessage) -> (r: NetworkSpec)
    ensures
        r@ == network_asked(m@),
{
    NetworkSpec {
        vni: m.vni,
        name: m.name.clone(),
        subnet: m.subnet.clone(),
        default_action: action_from_proto(m.default_action),
        drop_icmp: m.drop_icmp,
    }
}

/// The rule that a message describes.
pub open spec fn rule_asked(m: RuleMessageView) -> PortRuleView {
    PortRuleView {
        proto: m.proto,
        port: low16_of(m.port),
        action: action_asked(m.action),
        log: m.log,
        src: chosen_text(m.src),
    }
}

/// Turns a message into a rule.
pub fn config_rule_from_proto(m: &RuleMessage) -> (r: PortRule)
    ensures
        r@ == rule_asked(m@),
{
    PortRule {
        proto: m.proto,
        port: low16(m.port),
        action: action_from_proto(m.action),
        log: m.log,
        src: choose_text(m.src.as_str()),
    }
}

/// The rules that messages describe, in order.
pub open spec fn rules_asked(ms: Seq<RuleMessageView>) -> Seq<PortRuleView> {
    ms.map_values(|m: RuleMessageView| rule_asked(m))
}

/// Turns messages into rules.
pub fn config_rules_from_proto(ms: &Vec<RuleMessage>) -> (r: Vec<PortRule>)
    ensures
        views(r@) == rules_asked(views(ms@)),
{
    let mut r: Vec<PortRule> = Vec::new();
    for i in 0..ms.len()
        invariant
            r@.len() == i,
            forall|j: int| 0 <= j < i ==> #[trigger] r@[j]@ == rule_asked(ms@[j]@),
    {
        r.push(config_rule_from_proto(&ms[i]));
    }
    assert(views(r@) =~= rules_asked(views(ms@)));
    r
}

/// The security group that a message describes.
pub open spec fn group_asked(m: SecurityGroupMessageView) -> SecurityGroupSpecView {
    SecurityGroupSpecView {
        name: m.name,
        default_action: action_asked(m.default_action),
        drop_icmp: m.drop_icmp,
        stateful: m.stateful,
        blocklist: m.blocklist,
        rules: rules_asked(m.rules),
    }
}

/// Turns a message into the security group of a request.
pub fn raft_security_group_spec(m: &SecurityGroupMessage) -> (r: SecurityGroupSpec)
    ensures
        r@ == group_asked(m@),
{
    SecurityGroupSpec {
        name: m.name.clone(),
        default_action: action_from_proto(m.default_action),
        drop_icmp: m.drop_icmp,
        stateful: m.stateful,
        blocklist: clone_strings(&m.blocklist),
        rules: config_rules_from_proto(&m.rules),
    }
}

/// The subnet that a message describes.
pub open spec fn subnet_asked(m: SubnetMessageView) -> SubnetSpecView {
    SubnetSpecView {
        id: m.id,
        vni: m.vni,
        cidr: m.cidr,
        gateway: chosen_text(m.gateway),
        pool_start: chosen_text(m.pool_start),
        pool_end: chosen_text(m.pool_end),
        enable_dhcp: m.enable_dhcp,
    }
}

/// Turns a message into the subnet of a request.
pub fn raft_subnet_spec(m: &SubnetMessage) -> (r: SubnetSpec)
    ensures
        r@ == subnet_asked(m@),
{
    SubnetSpec {
        id: m.id.clone(),
        vni: m.vni,
        cidr: m.cidr.clone(),
        gateway: choose_text(m.gateway.as_str()),
        pool_start: choose_text(m.pool_start.as_str()),
        pool_end: choose_text(m.pool_end.as_str()),
        enable_dhcp: m.enable_dhcp,
    }
}

// ---------------------------------------------------------------------------
// Listings
// ---------------------------------------------------------------------------

/// How a rule is listed.
pub open spec fn rule_shown(r: PortRuleView) -> RuleMessageView {
    RuleMessageView {
        proto: r.proto,
        port: r.port as u32,
        action: action_sent(r.action),
        log: r.log,
        src: text_or_empty(r.src),
    }
}

/// Turns a rule into a message.
pub fn proto_rule_from_config(p: &PortRule) -> (r: RuleMessage)
    ensures
        r@ == rule_shown(p@),
{
    RuleMessage {
        proto: p.proto,
        port: p.port as u32,
        action: action_to_proto(p.action),
        log: p.log,
        src: or_empty(&p.src),
    }
}

/// How rules are listed, in order.
pub open spec fn rules_shown(rs: Seq<PortRuleView>) -> Seq<RuleMessageView> {
    rs.map_values(|r: PortRuleView| rule_shown(r))
}

/// Turns rules into messages.
pub fn proto_rules_from_config(rs: &Vec<PortRule>) -> (r: Vec<RuleMessage>)
    ensures
        views(r@) == rules_shown(views(rs@)),
{
    let mut r: Vec<RuleMessage> = Vec::new();
    for i in 0..rs.len()
        invariant
            r@.len() == i,
            forall|j: int| 0 <= j < i ==> #[trigger] r@[j]@ == rule_shown(rs@[j]@),
    {
        r.push(proto_rule_from_config(&rs[i]));
    }
    assert(views(r@) =~= rules_shown(views(rs@)));
    r
}

/// How a security group is listed.
pub open spec fn group_shown(g: SecurityGroupView) -> SecurityGroupInfoView {
    SecurityGroupInfoView {
        name: g.name,
        policy_id: policy_id_of(g.name),
        default_action: action_sent(g.default_action),
        drop_icmp: g.drop_icmp,
        stateful: g.stateful,
        blocklist: g.blocklist,
        rules: rules_shown(g.rules),
    }
}

/// Lists a security group.
pub fn sg_to_info(g: &SecurityGroup) -> (r: SecurityGroupInfo)
    ensures
        r@ == group_shown(g@),
{
    SecurityGroupInfo {
        name: g.name.clone(),
        policy_id: g.policy_id(),
        default_action: action_to_proto(g.default_action),
        drop_icmp: g.drop_icmp,
        stateful: g.stateful,
        blocklist: clone_strings(&g.blocklist),
        rules: proto_rules_from_config(&g.rules),
    }
}

/// Lists security groups, in order.
pub fn list_security_groups(gs: &Vec<SecurityGroup>) -> (r: Vec<SecurityGroupInfo>)
    ensures
        views(r@) == views(gs@).map_values(|g: SecurityGroupView| group_shown(g)),
{
    let mut r: Vec<SecurityGroupInfo> = Vec::new();
    for i in 0..gs.len()
        invariant
            r@.len() == i,
            forall|j: int| 0 <= j < i ==> #[trigger] r@[j]@ == group_shown(gs@[j]@),
    {
        r.push(sg_to_info(&gs[i]));
    }
    assert(views(r@) =~= views(gs@).map_values(|g: SecurityGroupView| group_shown(g)));
    r
}

/// How a port is listed.
pub open spec fn port_shown(p: PortView) -> PortInfoView {
    PortInfoView {
        id: p.id,
        vni: p.vni,
        host: p.host,
        ip: ipv4_text(p.ip),
        mac: mac_text(p.mac),
        tap: p.tap,
    }
}

/// Lists a port.
pub fn port_to_info(p: &Port) -> (r: PortInfo)
    ensures
        r@ == port_shown(p@),
{
    PortInfo {
        id: p.id.clone(),
        vni: p.vni,
        host: p.host.clone(),
        ip: p.ip.to_string(),
        mac: fmt_mac(p.mac),
        tap: p.tap.clone(),
    }
}

/// Lists ports, in order.
pub fn list_ports(ps: &Vec<Port>) -> (r: Vec<PortInfo>)
    ensures
        views(r@) == views(ps@).map_values(|p: PortView| port_shown(p)),
{
    let mut r: Vec<PortInfo> = Vec::new();
    for i in 0..ps.len()
        invariant
            r@.len() == i,
            forall|j: int| 0 <= j < i ==> #[trigger] r@[j]@ == port_shown(ps@[j]@),
    {
        r.push(port_to_info(&ps[i]));
    }
    assert(views(r@) =~= views(ps@).map_values(|p: PortView| port_shown(p)));
    r
}

/// How the port of a response is listed.
pub open spec fn record_shown(p: PortRecordView) -> PortInfoView {
    PortInfoView { id: p.id, vni: p.vni, host: p.host, ip: p.ip, mac: p.mac, tap: p.tap }
}

/// Lists the port of a response.
pub fn port_record_to_info(p: PortRecord) -> (r: PortInfo)
    ensures
        r@ == record_shown(p@),
{
    PortInfo { id: p.id, vni: p.vni, host: p.host, ip: p.ip, mac: p.mac, tap: p.tap }
}

// ---------------------------------------------------------------------------
// Laws
// ---------------------------------------------------------------------------

/// A rule that is listed and asked for again is the same rule, but for a rejection, which has
/// become a drop, and an empty source, which has become none.
pub proof fn rule_survives_the_wire(r: PortRuleView)
    requires
        r.src is Some ==> r.src->0.len() > 0,
    ensures
        rule_asked(rule_shown(r)) == (PortRuleView {
            action: if r.action == ActionName::Reject {
                ActionName::Drop
            } else {
                r.action
            },
            ..r
        }),
{
    assert(r.port as u32 % 0x1_0000 == r.port);
}

/// An action that is asked for is listed as it was asked for.
pub proof fn action_survives_the_wire(a: WireAction)
    ensures
        action_sent(action_asked(a)) == a,
{
}

/// A number of a message is a choice unless it is zero; only its low 16 bits count.
pub open spec fn carries_number(n: u32, o: Option<u16>) -> bool {
    &&& n == 0 <==> o is None
    &&& o matches Some(x) ==> x == n % 0x1_0000
}

/// A text of a message is a choice unless it is empty.
pub open spec fn carries_text(s: Seq<char>, o: Option<Seq<char>>) -> bool {
    &&& s.len() == 0 <==> o is None
    &&& o matches Some(x) ==> x == s
}

/// The action on the wire lets packets pass exactly where the other does.
pub open spec fn carries_action(a: WireAction, b: ActionName) -> bool {
    &&& a == WireAction::Pass <==> b == ActionName::Pass
    &&& b != ActionName::Reject
}

/// A host is asked for as the message describes it.
pub proof fn host_message_is_carried(m: HostMessageView)
    ensures
        ({
            let s = host_asked(m);
            &&& s.id == m.id
            &&& s.vtep == m.vtep
            &&& s.underlay_iface == m.underlay_iface
            &&& s.underlay_mac == m.underlay_mac
            &&& s.encap == m.encap
            &&& carries_number(m.udp_port, s.udp_port)
            &&& carries_number(m.underlay_mtu, s.underlay_mtu)
        }),
{
}

/// A network is asked for as the message describes it.
pub proof fn network_message_is_carried(m: NetworkMessageView)
    ensures
        ({
            let s = network_asked(m);
            &&& s.vni == m.vni
            &&& s.name == m.name
            &&& s.subnet == m.subnet
            &&& carries_action(m.default_action, s.default_action)
            &&& s.drop_icmp == m.drop_icmp
        }),
{
}

/// A security group is asked for as the message describes it, with its rules in their order.
pub proof fn group_message_is_carried(m: SecurityGroupMessageView)
    ensures
        ({
            let s = group_asked(m);
            &&& s.name == m.name
            &&& carries_action(m.default_action, s.default_action)
            &&& s.drop_icmp == m.drop_icmp
            &&& s.stateful == m.stateful
            &&& s.blocklist == m.blocklist
            &&& s.rules.len() == m.rules.len()
            &&& forall|i: int|
                0 <= i < m.rules.len() ==> {
                    let x = #[trigger] m.rules[i];
                    let r = s.rules[i];
                    &&& r.proto == x.proto
                    &&& r.port == x.port % 0x1_0000
                    &&& carries_action(x.action, r.action)
                    &&& r.log == x.log
                    &&& carries_text(x.src, r.src)
                }
        }),
{
}

/// A subnet is asked for as the message describes it.
pub proof fn subnet_message_is_carried(m: SubnetMessageView)
    ensures
        ({
            let s = subnet_asked(m);
            &&& s.id == m.id
            &&& s.vni == m.vni
            &&& s.cidr == m.cidr
            &&& carries_text(m.gateway, s.gateway)
            &&& carries_text(m.pool_start, s.pool_start)
            &&& carries_text(m.pool_end, s.pool_end)
            &&& s.enable_dhcp == m.enable_dhcp
        }),
{
}

/// A security group is listed as it is, with its rules in their order; a rejection is listed as a
/// drop.
pub proof fn listed_group_is_as_it_is(g: SecurityGroupView)
    ensures
        ({
            let s = group_shown(g);
            &&& s.name == g.name
            &&& s.policy_id == policy_id_of(g.name)
            &&& s.default_action == WireAction::Pass <==> g.default_action == ActionName::Pass
            &&& s.drop_icmp == g.drop_icmp
            &&& s.stateful == g.stateful
            &&& s.blocklist == g.blocklist
            &&& s.rules.len() == g.rules.len()
            &&& forall|i: int|
                0 <= i < g.rules.len() ==> {
                    let x = #[trigger] g.rules[i];
                    let r = s.rules[i];
                    &&& r.proto == x.proto
                    &&& r.port == x.port
                    &&& r.action == WireAction::Pass <==> x.action == ActionName::Pass
                    &&& r.log == x.log
                    &&& x.src matches Some(t) ==> r.src == t
                    &&& x.src is None ==> r.src.len() == 0
                }
        }),
{
}

/// A port is listed as it is, and the port of a response as the response has it.
pub proof fn listed_port_is_as_it_is(p: PortView, r: PortRecordView)
    ensures
        ({
            let s = port_shown(p);
            &&& s.id == p.id
            &&& s.vni == p.vni
            &&& s.host == p.host
            &&& s.ip == ipv4_text(p.ip)
            &&& s.mac == mac_text(p.mac)
            &&& s.tap == p.tap
        }),
        ({
            let s = record_shown(r);
            &&& s.id == r.id
            &&& s.vni == r.vni
            &&& s.host == r.host
            &&& s.ip == r.ip
            &&& s.mac == r.mac
            &&& s.tap == r.tap
        }),
{
}

/// What is seen of the records of this module is all that they hold, field by field.
pub proof fn messages_records_are_seen_whole(
    host_message: HostMessage,
    network_message: NetworkMessage,
    rule_message: RuleMessage,
    security_group_message: SecurityGroupMessage,
    security_group_info: SecurityGroupInfo,
    subnet_message: SubnetMessage,
    port_info: PortInfo,
)
    ensures
        host_message@.id == host_message.id@,
        host_message@.vtep == host_message.vtep@,
        host_message@.underlay_iface == host_message.underlay_iface@,
        host_message@.underlay_mac == host_message.underlay_mac@,
        host_message@.encap == host_message.encap,
        host_message@.udp_port == host_message.udp_port,
        host_message@.underlay_mtu == host_message.underlay_mtu,
        network_message@.vni == network_message.vni,
        network_message@.name == network_message.name@,
        network_message@.subnet == network_message.subnet@,
        network_message@.default_action == network_message.default_action,
        network_message@.drop_icmp == network_message.drop_icmp,
        rule_message@.proto == rule_message.proto,
        rule_message@.port == rule_message.port,
        rule_message@.action == rule_message.action,
        rule_message@.log == rule_message.log,
        rule_message@.src == rule_message.src@,
        security_group_message@.name == security_group_message.name@,
        security_group_message@.default_action == security_group_message.default_action,
        security_group_message@.drop_icmp == security_group_message.drop_icmp,
        security_group_message@.stateful == security_group_message.stateful,
        security_group_message@.blocklist == views(security_group_message.blocklist@),
        security_group_message@.rules == views(security_group_message.rules@),
        security_group_info@.name == security_group_info.name@,
        security_group_info@.policy_id == security_group_info.policy_id,
        security_group_info@.default_action == security_group_info.default_action,
        security_group_info@.drop_icmp == security_group_info.drop_icmp,
        security_group_info@.stateful == security_group_info.stateful,
        security_group_info@.blocklist == views(security_group_info.blocklist@),
        security_group_info@.rules == views(security_group_info.rules@),
        subnet_message@.id == subnet_message.id@,
        subnet_message@.vni == subnet_message.vni,
        subnet_message@.cidr == subnet_message.cidr@,
        subnet_message@.gateway == subnet_message.gateway@,
        subnet_message@.pool_start == subnet_message.pool_start@,
        subnet_message@.pool_end == subnet_message.pool_end@,
        subnet_message@.enable_dhcp == subnet_message.enable_dhcp,
        port_info@.id == port_info.id@,
        port_info@.vni == port_info.vni,
        port_info@.host == port_info.host@,
        port_info@.ip == port_info.ip@,
        port_info@.mac == port_info.mac@,
        port_info@.tap == port_info.tap@,
{
}

} // verus!
