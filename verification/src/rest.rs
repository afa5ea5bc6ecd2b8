//! The HTTP gateway: who is calling, what a request asks of the fabric, and how it is answered.

use vstd::prelude::*;
use vstd::utf8::{encode_utf8, encode_utf8_decode_utf8};

use crate::audit::{Audit, AuditEntryView, AuditView};
use crate::authz::{Authz, AuthzView, Caller, CallerView};
use crate::config::{ActionName, EncapName, PortRuleView, ProtoName};
use crate::lists::{keyed_at, keyed_domain};
use crate::messages::{
    carries_number, choose_text, chosen_text, group_asked, host_asked, low16_of, network_asked,
    or_empty, port_record_to_info, raft_host_spec, raft_network_spec, raft_security_group_spec,
    raft_subnet_spec, record_shown, rule_asked, subnet_asked, text_or_empty, HostMessage,
    HostMessageView, NetworkMessage, NetworkMessageView, PortInfo, PortInfoView, RuleMessage,
    RuleMessageView, SecurityGroupMessage, SecurityGroupMessageView, SubnetMessage,
    SubnetMessageView, WireAction,
};
use crate::resources::{
    api_view, floating_record_json, show_floating_record, ApiError, ApiErrorView, FloatingIpJson,
    FloatingIpJsonView, BAD_REQUEST, CONFLICT, FORBIDDEN, INTERNAL_SERVER_ERROR, NOT_FOUND,
};
use crate::sorted::{keys, map_views, values, SortedMap, TextKey};
use crate::store::{TopoRequest, TopoRequestView, TopoResponse, TopoResponseView};
use crate::text::{
    chars_of, clone_strings, debug_str, debug_text, decimal, opt_view, push_decimal, same,
    string_of, sub_chars, trim, trimmed, views,
};

verus! {

// ---------------------------------------------------------------------------
// Who is calling
// ---------------------------------------------------------------------------

/// Whether two byte strings are equal. Every byte is compared, wherever the first difference is.
pub fn ct_eq(a: &[u8], b: &[u8]) -> (r: bool)
    ensures
        r == (a@ == b@),
{
    if a.len() != b.len() {
        return false;
    }
    let mut diff: u8 = 0;
    assert(a@.take(0) =~= b@.take(0));
    for i in 0..a.len()
        invariant
            a@.len() == b@.len(),
            diff == 0 <==> a@.take(i as int) == b@.take(i as int),
    {
        let x: u8 = a[i];
        let y: u8 = b[i];
        let before: u8 = diff;
        diff = diff | (x ^ y);
        assert(diff == 0 <==> before == 0 && x == y) by (bit_vector)
            requires
                diff == before | (x ^ y),
        ;
        proof {
            let (p, q) = (a@.take(i as int + 1), b@.take(i as int + 1));
            assert(p.drop_last() =~= a@.take(i as int));
            assert(q.drop_last() =~= b@.take(i as int));
            if before == 0 && x == y {
                assert(p =~= p.drop_last().push(x));
                assert(q =~= q.drop_last().push(y));
            } else if p == q {
                assert(p.last() == x && q.last() == y);
            }
        }
    }
    assert(a@.take(a@.len() as int) =~= a@);
    assert(b@.take(b@.len() as int) =~= b@);
    diff == 0
}

/// Whether two texts are equal, compared by [`ct_eq`].
pub fn same_secret(a: &str, b: &str) -> (r: bool)
    ensures
        r == (a@ == b@),
{
    proof {
        encode_utf8_decode_utf8(a@);
        encode_utf8_decode_utf8(b@);
    }
    ct_eq(a.as_bytes(), b.as_bytes())
}

/// The token of an `Authorization` header: what follows `Bearer `, without surrounding white space.
pub open spec fn bearer_of(header: Option<Seq<char>>) -> Option<Seq<char>> {
    match header {
        Some(h) => if "Bearer "@.is_prefix_of(h) {
            Some(trimmed(h.skip("Bearer "@.len() as int)))
        } else {
            None
        },
        None => None,
    }
}

/// The view of an optional header.
pub open spec fn header_view(header: Option<&str>) -> Option<Seq<char>> {
    match header {
        Some(h) => Some(h@),
        None => None,
    }
}

/// Reads [`bearer_of`].
pub fn bearer(header: Option<&str>) -> (r: Option<String>)
    ensures
        opt_view(r) == bearer_of(header_view(header)),
{
    match header {
        Some(h) => {
            let text = chars_of(h);
            let prefix = chars_of("Bearer ");
            if text.len() < prefix.len() {
                return None;
            }
            for i in 0..prefix.len()
                invariant
                    text@ == h@,
                    prefix@ == "Bearer "@,
                    header == Some(h),
                    prefix@.len() <= text@.len(),
                    forall|j: int| 0 <= j < i ==> text@[j] == prefix@[j],
            {
                if text[i] != prefix[i] {
                    assert(!"Bearer "@.is_prefix_of(h@));
                    return None;
                }
            }
            assert(prefix@ =~= text@.subrange(0, prefix@.len() as int));
            assert(text@.subrange(prefix@.len() as int, text@.len() as int) =~= text@.skip(
                prefix@.len() as int,
            ));
            Some(string_of(&trim(&sub_chars(&text, prefix.len(), text.len()))))
        },
        None => None,
    }
}

/// Who presents the header: the name of its token, if the token is known.
pub open spec fn presented_by(
    tokens: Map<Seq<char>, Seq<char>>,
    header: Option<Seq<char>>,
) -> CallerView {
    match bearer_of(header) {
        Some(t) => if tokens.dom().contains(t) {
            CallerView::Cert(tokens[t])
        } else {
            CallerView::Anonymous
        },
        None => CallerView::Anonymous,
    }
}

/// The caller behind the `Authorization` header of a request. `tokens` gives the name of each
/// token.
pub fn caller(tokens: &SortedMap<TextKey, String>, header: Option<&str>) -> (r: Caller)
    requires
        tokens.inv(),
    ensures
        r@ == presented_by(map_views(tokens@), header_view(header)),
{
    let provided = match bearer(header) {
        Some(t) => t,
        None => {
            return Caller::Anonymous;
        },
    };
    let items = tokens.items();
    proof {
        keyed_domain(keys(items@), values(items@));
    }
    for i in 0..items.len()
        invariant
            crate::lists::keyed(keys(items@), values(items@)) == tokens@,
            crate::lists::distinct(keys(items@)),
            bearer_of(header_view(header)) == Some(provided@),
            forall|j: int| 0 <= j < i ==> #[trigger] keys(items@)[j] != provided@,
    {
        if same_secret(provided.as_str(), items[i].key.text.as_str()) {
            proof {
                assert(keys(items@)[i as int] == provided@);
                keyed_at(keys(items@), values(items@), i as int);
            }
            return Caller::Cert(items[i].value.clone());
        }
    }
    Caller::Anonymous
}

/// The name of a caller in the audit trail.
pub open spec fn actor(c: CallerView) -> Seq<char> {
    match c {
        CallerView::Cert(name) => name,
        CallerView::Anonymous => "anonymous"@,
    }
}

/// Writes [`actor`].
pub fn actor_of(c: &Caller) -> (r: String)
    ensures
        r@ == actor(c@),
{
    match c {
        Caller::Cert(name) => name.clone(),
        Caller::Anonymous => String::from_str("anonymous"),
    }
}

// ---------------------------------------------------------------------------
// Failures of the controller
// ---------------------------------------------------------------------------

/// The class of a failure.
#[derive(Clone, Copy, Debug, PartialEq, Eq, Structural)]
pub enum Code {
    PermissionDenied,
    InvalidArgument,
    NotFound,
    FailedPrecondition,
    AlreadyExists,
    Internal,
    /// Any other class.
    Other,
}

/// A failure of the controller.
#[derive(Debug, PartialEq, Eq)]
pub struct Status {
    pub code: Code,
    pub message: String,
}

/// What a [`Status`] holds.
#[verifier::ext_equal]
pub struct StatusView {
    pub code: Code,
    pub message: Seq<char>,
}

impl View for Status {
    type V = StatusView;

    open spec fn view(&self) -> StatusView {
        StatusView { code: self.code, message: self.message@ }
    }
}

/// The HTTP status of a class of failures.
pub open spec fn http_status(c: Code) -> u16 {
    match c {
        Code::PermissionDenied => FORBIDDEN,
        Code::InvalidArgument => BAD_REQUEST,
        Code::NotFound => NOT_FOUND,
        Code::FailedPrecondition => CONFLICT,
        Code::AlreadyExists => CONFLICT,
        Code::Internal => INTERNAL_SERVER_ERROR,
        Code::Other => INTERNAL_SERVER_ERROR,
    }
}

/// Reports a failure of the controller over HTTP.
pub fn status_to_api(s: &Status) -> (r: ApiError)
    ensures
        r@ == (ApiErrorView { status: http_status(s.code), message: s@.message }),
{
    let status: u16 = match s.code {
        Code::PermissionDenied => FORBIDDEN,
        Code::InvalidArgument => BAD_REQUEST,
        Code::NotFound => NOT_FOUND,
        Code::FailedPrecondition => CONFLICT,
        Code::AlreadyExists => CONFLICT,
        Code::Internal => INTERNAL_SERVER_ERROR,
        Code::Other => INTERNAL_SERVER_ERROR,
    };
    ApiError::new(status, s.message.clone())
}

// ---------------------------------------------------------------------------
// Words
// ---------------------------------------------------------------------------

/// That a word is not one of those in use.
pub open spec fn unknown(kind: Seq<char>, word: Seq<char>, hint: Seq<char>) -> ApiErrorView {
    ApiErrorView { status: BAD_REQUEST, message: kind + debug_text(word) + hint }
}

fn unknown_word(kind: &str, word: &str, hint: &str) -> (r: ApiError)
    ensures
        r@ == unknown(kind@, word@, hint@),
{
    let mut message = String::from_str(kind);
    message.append(debug_str(word).as_str());
    message.append(hint);
    ApiError::new(BAD_REQUEST, message)
}

/// The action that a word names.
pub open spec fn action_named(s: Seq<char>) -> Result<WireAction, ApiErrorView> {
    if s == "pass"@ {
        Ok(WireAction::Pass)
    } else if s == "drop"@ {
        Ok(WireAction::Drop)
    } else {
        Err(unknown("unknown action "@, s, " (use pass or drop)"@))
    }
}

/// The view of a failure to read a word.
pub open spec fn word_view<T>(r: Result<T, ApiError>) -> Result<T, ApiErrorView> {
    match r {
        Ok(x) => Ok(x),
        Err(e) => Err(e@),
    }
}

/// Reads [`action_named`].
pub fn parse_action(s: &str) -> (r: Result<WireAction, ApiError>)
    ensures
        word_view(r) == action_named(s@),
{
    if same(s, "pass") {
        Ok(WireAction::Pass)
    } else if same(s, "drop") {
        Ok(WireAction::Drop)
    } else {
        Err(unknown_word("unknown action ", s, " (use pass or drop)"))
    }
}

/// The protocol that a word names.
pub open spec fn proto_named(s: Seq<char>) -> Result<ProtoName, ApiErrorView> {
    if s == "tcp"@ {
        Ok(ProtoName::Tcp)
    } else if s == "udp"@ {
        Ok(ProtoName::Udp)
    } else if s == "icmp"@ {
        Ok(ProtoName::Icmp)
    } else {
        Err(unknown("unknown proto "@, s, " (use tcp/udp/icmp)"@))
    }
}

/// Reads [`proto_named`].
pub fn parse_proto(s: &str) -> (r: Result<ProtoName, ApiError>)
    ensures
        word_view(r) == proto_named(s@),
{
    if same(s, "tcp") {
        Ok(ProtoName::Tcp)
    } else if same(s, "udp") {
        Ok(ProtoName::Udp)
    } else if same(s, "icmp") {
        Ok(ProtoName::Icmp)
    } else {
        Err(unknown_word("unknown proto ", s, " (use tcp/udp/icmp)"))
    }
}

/// The encapsulation that a word names.
pub open spec fn encap_named(s: Seq<char>) -> Result<EncapName, ApiErrorView> {
    if s == "vxlan"@ {
        Ok(EncapName::Vxlan)
    } else if s == "geneve"@ {
        Ok(EncapName::Geneve)
    } else {
        Err(unknown("unknown encap "@, s, " (use vxlan or geneve)"@))
    }
}

/// Reads [`encap_named`].
pub fn parse_encap(s: &str) -> (r: Result<EncapName, ApiError>)
    ensures
        word_view(r) == encap_named(s@),
{
    if same(s, "vxlan") {
        Ok(EncapName::Vxlan)
    } else if same(s, "geneve") {
        Ok(EncapName::Geneve)
    } else {
        Err(unknown_word("unknown encap ", s, " (use vxlan or geneve)"))
    }
}

// ---------------------------------------------------------------------------
// Requests
// ---------------------------------------------------------------------------

/// The body of a request to register a host.
#[derive(Debug, PartialEq, Eq)]
pub struct CreateHostReq {
    pub id: String,
    pub vtep: String,
    pub underlay_iface: String,
    pub underlay_mac: String,
    pub encap: Option<String>,
    pub udp_port: u32,
    pub underlay_mtu: u32,
}

/// What a [`CreateHostReq`] holds.
#[verifier::ext_equal]
pub struct CreateHostReqView {
    pub id: Seq<char>,
    pub vtep: Seq<char>,
    pub underlay_iface: Seq<char>,
    pub underlay_mac: Seq<char>,
    pub encap: Option<Seq<char>>,
    pub udp_port: u32,
    pub underlay_mtu: u32,
}

impl View for CreateHostReq {
    type V = CreateHostReqView;

    open spec fn view(&self) -> CreateHostReqView {
        CreateHostReqView {
            id: self.id@,
            vtep: self.vtep@,
            underlay_iface: self.underlay_iface@,
            underlay_mac: self.underlay_mac@,
            encap: opt_view(self.encap),
            udp_port: self.udp_port,
            underlay_mtu: self.underlay_mtu,
        }
    }
}

/// The body of a request to define a network.
#[derive(Debug, PartialEq, Eq)]
pub struct CreateNetworkReq {
    pub vni: u32,
    pub name: String,
    pub subnet: String,
    pub default_action: Option<String>,
    pub drop_icmp: bool,
}

/// What a [`CreateNetworkReq`] holds.
#[verifier::ext_equal]
pub struct CreateNetworkReqView {
    pub vni: u32,
    pub name: Seq<char>,
    pub subnet: Seq<char>,
    pub default_action: Option<Seq<char>>,
    pub drop_icmp: bool,
}

impl View for CreateNetworkReq {
    type V = CreateNetworkReqView;

    open spec fn view(&self) -> CreateNetworkReqView {
        CreateNetworkReqView {
            vni: self.vni,
            name: self.name@,
            subnet: self.subnet@,
            default_action: opt_view(self.default_action),
            drop_icmp: self.drop_icmp,
        }
    }
}

/// The body of a request to create a port.
#[derive(Debug, PartialEq, Eq)]
pub struct CreatePortReq {
    pub network: u32,
    pub host: String,
    pub tap: String,
    pub ip: Option<String>,
    pub policy: Option<u32>,
}

/// What a [`CreatePortReq`] holds.
#[verifier::ext_equal]
pub struct CreatePortReqView {
    pub network: u32,
    pub host: Seq<char>,
    pub tap: Seq<char>,
    pub ip: Option<Seq<char>>,
    pub policy: Option<u32>,
}

impl View for CreatePortReq {
    type V = CreatePortReqView;

    open spec fn view(&self) -> CreatePortReqView {
        CreatePortReqView {
            network: self.network,
            host: self.host@,
            tap: self.tap@,
            ip: opt_view(self.ip),
            policy: self.policy,
        }
    }
}

/// The body of a request to define a subnet.
#[derive(Debug, PartialEq, Eq)]
pub struct CreateSubnetReq {
    pub id: String,
    pub vni: u32,
    pub cidr: String,
    pub gateway: Option<String>,
    pub pool_start: Option<String>,
    pub pool_end: Option<String>,
    pub enable_dhcp: bool,
}

/// What a [`CreateSubnetReq`] holds.
#[verifier::ext_equal]
pub struct CreateSubnetReqView {
    pub id: Seq<char>,
    pub vni: u32,
    pub cidr: Seq<char>,
    pub gateway: Option<Seq<char>>,
    pub pool_start: Option<Seq<char>>,
    pub pool_end: Option<Seq<char>>,
    pub enable_dhcp: bool,
}

impl View for CreateSubnetReq {
    type V = CreateSubnetReqView;

    open spec fn view(&self) -> CreateSubnetReqView {
        CreateSubnetReqView {
            id: self.id@,
            vni: self.vni,
            cidr: self.cidr@,
            gateway: opt_view(self.gateway),
            pool_start: opt_view(self.pool_start),
            pool_end: opt_view(self.pool_end),
            enable_dhcp: self.enable_dhcp,
        }
    }
}

/// A rule in the body of a request.
#[derive(Debug, PartialEq, Eq)]
pub struct RuleReq {
    pub proto: String,
    pub port: u16,
    pub action: String,
    pub log: bool,
    pub src: Option<String>,
}

/// What a [`RuleReq`] holds.
#[verifier::ext_equal]
pub struct RuleReqView {
    pub proto: Seq<char>,
    pub port: u16,
    pub action: Seq<char>,
    pub log: bool,
    pub src: Option<Seq<char>>,
}

impl View for RuleReq {
    type V = RuleReqView;

    open spec fn view(&self) -> RuleReqView {
        RuleReqView {
            proto: self.proto@,
            port: self.port,
            action: self.action@,
            log: self.log,
            src: opt_view(self.src),
        }
    }
}

/// The body of a request to define a security group.
#[derive(Debug, PartialEq, Eq)]
pub struct CreateSecurityGroupReq {
    pub name: String,
    pub default_action: Option<String>,
    pub drop_icmp: bool,
    pub stateful: bool,
    pub blocklist: Vec<String>,
    pub rules: Vec<RuleReq>,
}

/// What a [`CreateSecurityGroupReq`] holds.
#[verifier::ext_equal]
pub struct CreateSecurityGroupReqView {
    pub name: Seq<char>,
    pub default_action: Option<Seq<char>>,
    pub drop_icmp: bool,
    pub stateful: bool,
    pub blocklist: Seq<Seq<char>>,
    pub rules: Seq<RuleReqView>,
}

impl View for CreateSecurityGroupReq {
    type V = CreateSecurityGroupReqView;

    open spec fn view(&self) -> CreateSecurityGroupReqView {
        CreateSecurityGroupReqView {
            name: self.name@,
            default_action: opt_view(self.default_action),
            drop_icmp: self.drop_icmp,
            stateful: self.stateful,
            blocklist: views(self.blocklist@),
            rules: views(self.rules@),
        }
    }
}

/// A request that changes the fabric.
#[derive(Debug, PartialEq, Eq)]
pub enum RestCall {
    /// Register or update a host.
    CreateHost(CreateHostReq),
    /// Retire a host.
    DeleteHost { id: String },
    /// Define a network.
    CreateNetwork(CreateNetworkReq),
    /// Decommission a network.
    DeleteNetwork { vni: u32 },
    /// Create a port.
    CreatePort(CreatePortReq),
    /// Remove a port.
    DeletePort { id: String },
    /// Define a subnet.
    CreateSubnet(CreateSubnetReq),
    /// Remove a subnet.
    DeleteSubnet { id: String },
    /// Define a security group.
    CreateSecurityGroup(CreateSecurityGroupReq),
    /// Remove a security group.
    DeleteSecurityGroup { name: String },
    /// Allocate a floating address.
    AllocateFloatingIp { subnet_id: String, ip: Option<String> },
    /// Associate a floating address with a port.
    AssociateFloatingIp { id: String, port_id: String, fixed_addr: String },
    /// Clear the association of a floating address.
    DisassociateFloatingIp { id: String },
    /// Release a floating address.
    ReleaseFloatingIp { id: String },
}

/// What a [`RestCall`] holds.
pub enum RestCallView {
    CreateHost(CreateHostReqView),
    DeleteHost { id: Seq<char> },
    CreateNetwork(CreateNetworkReqView),
    DeleteNetwork { vni: u32 },
    CreatePort(CreatePortReqView),
    DeletePort { id: Seq<char> },
    CreateSubnet(CreateSubnetReqView),
    DeleteSubnet { id: Seq<char> },
    CreateSecurityGroup(CreateSecurityGroupReqView),
    DeleteSecurityGroup { name: Seq<char> },
    AllocateFloatingIp { subnet_id: Seq<char>, ip: Option<Seq<char>> },
    AssociateFloatingIp { id: Seq<char>, port_id: Seq<char>, fixed_addr: Seq<char> },
    DisassociateFloatingIp { id: Seq<char> },
    ReleaseFloatingIp { id: Seq<char> },
}

impl View for RestCall {
    type V = RestCallView;

    open spec fn view(&self) -> RestCallView {
        match self {
            RestCall::CreateHost(b) => RestCallView::CreateHost(b@),
            RestCall::DeleteHost { id } => RestCallView::DeleteHost {
                id: id@,
            },
            RestCall::CreateNetwork(b) => RestCallView::CreateNetwork(b@),
            RestCall::DeleteNetwork { vni } => RestCallView::DeleteNetwork {
                vni: *vni,
            },
            RestCall::CreatePort(b) => RestCallView::CreatePort(b@),
            RestCall::DeletePort { id } => RestCallView::DeletePort {
                id: id@,
            },
            RestCall::CreateSubnet(b) => RestCallView::CreateSubnet(b@),
            RestCall::DeleteSubnet { id } => RestCallView::DeleteSubnet {
                id: id@,
            },
            RestCall::CreateSecurityGroup(b) => RestCallView::CreateSecurityGroup(b@),
            RestCall::DeleteSecurityGroup { name } => RestCallView::DeleteSecurityGroup {
                name: name@,
            },
            RestCall::AllocateFloatingIp { subnet_id, ip } => RestCallView::AllocateFloatingIp {
                subnet_id: subnet_id@,
                ip: opt_view(*ip),
            },
            RestCall::AssociateFloatingIp { id, port_id, fixed_addr } =>
                RestCallView::AssociateFloatingIp {
                id: id@,
                port_id: port_id@,
                fixed_addr: fixed_addr@,
            },
            RestCall::DisassociateFloatingIp { id } => RestCallView::DisassociateFloatingIp {
                id: id@,
            },
            RestCall::ReleaseFloatingIp { id } => RestCallView::ReleaseFloatingIp {
                id: id@,
            },
        }
    }
}

/// The name of the operation in the audit trail.
pub open spec fn operation_of(call: RestCallView) -> Seq<char> {
    match call {
        RestCallView::CreateHost(_) => "host.create"@,
        RestCallView::DeleteHost { .. } => "host.delete"@,
        RestCallView::CreateNetwork(_) => "network.create"@,
        RestCallView::DeleteNetwork { .. } => "network.delete"@,
        RestCallView::CreatePort(_) => "port.create"@,
        RestCallView::DeletePort { .. } => "port.delete"@,
        RestCallView::CreateSubnet(_) => "subnet.create"@,
        RestCallView::DeleteSubnet { .. } => "subnet.delete"@,
        RestCallView::CreateSecurityGroup(_) => "security-group.create"@,
        RestCallView::DeleteSecurityGroup { .. } => "security-group.delete"@,
        RestCallView::AllocateFloatingIp { .. } => "floating-ip.allocate"@,
        RestCallView::AssociateFloatingIp { .. } => "floating-ip.associate"@,
        RestCallView::DisassociateFloatingIp { .. } => "floating-ip.disassociate"@,
        RestCallView::ReleaseFloatingIp { .. } => "floating-ip.release"@,
    }
}

/// Writes [`operation_of`].
pub fn operation(call: &RestCall) -> (r: &'static str)
    ensures
        r@ == operation_of(call@),
{
    match call {
        RestCall::CreateHost(_) => "host.create",
        RestCall::DeleteHost { .. } => "host.delete",
        RestCall::CreateNetwork(_) => "network.create",
        RestCall::DeleteNetwork { .. } => "network.delete",
        RestCall::CreatePort(_) => "port.create",
        RestCall::DeletePort { .. } => "port.delete",
        RestCall::CreateSubnet(_) => "subnet.create",
        RestCall::DeleteSubnet { .. } => "subnet.delete",
        RestCall::CreateSecurityGroup(_) => "security-group.create",
        RestCall::DeleteSecurityGroup { .. } => "security-group.delete",
        RestCall::AllocateFloatingIp { .. } => "floating-ip.allocate",
        RestCall::AssociateFloatingIp { .. } => "floating-ip.associate",
        RestCall::DisassociateFloatingIp { .. } => "floating-ip.disassociate",
        RestCall::ReleaseFloatingIp { .. } => "floating-ip.release",
    }
}

/// The host that a request is confined to, if it concerns one host alone.
pub open spec fn host_of(call: RestCallView) -> Option<Seq<char>> {
    match call {
        RestCallView::CreateHost(b) => Some(b.id),
        RestCallView::DeleteHost { id } => Some(id),
        RestCallView::CreatePort(b) => Some(b.host),
        _ => None,
    }
}

/// Whether the policy lets `caller` make the request: those that concern one host go by the rule
/// for hosts, all others are for administrators.
pub open spec fn permitted(authz: AuthzView, caller: CallerView, call: RestCallView) -> bool {
    match host_of(call) {
        Some(host) => authz.may_write_host(caller, host),
        None => authz.may_administer(caller),
    }
}

/// Decides [`permitted`].
pub fn permits(authz: &Authz, caller: &Caller, call: &RestCall) -> (r: bool)
    ensures
        r == permitted(authz@, caller@, call@),
{
    match call {
        RestCall::CreateHost(b) => authz.allow_host(caller, b.id.as_str()),
        RestCall::DeleteHost { id } => authz.allow_host(caller, id.as_str()),
        RestCall::CreatePort(b) => authz.allow_host(caller, b.host.as_str()),
        _ => authz.allow_admin(caller),
    }
}

/// The message that goes with a refusal.
pub open spec fn refusal_of(call: RestCallView) -> Seq<char> {
    match call {
        RestCallView::CreateHost(b) => "add/update host "@ + debug_text(b.id) + " (host-scoped)"@,
        RestCallView::DeleteHost { id } => "remove host "@ + debug_text(id) + " (host-scoped)"@,
        RestCallView::CreateNetwork(_) => "define networks (admin only)"@,
        RestCallView::DeleteNetwork { .. } => "remove networks (admin only)"@,
        RestCallView::CreatePort(b) => "create ports on host "@ + debug_text(b.host)
            + " (host-scoped)"@,
        RestCallView::DeletePort { .. } => "remove ports (admin only)"@,
        RestCallView::CreateSubnet(_) => "define subnets (admin only)"@,
        RestCallView::DeleteSubnet { .. } => "remove subnets (admin only)"@,
        RestCallView::CreateSecurityGroup(_) => "define security groups (admin only)"@,
        RestCallView::DeleteSecurityGroup { .. } => "remove security groups (admin only)"@,
        RestCallView::AllocateFloatingIp { .. } => "allocate floating ips (admin only)"@,
        RestCallView::AssociateFloatingIp { .. } => "associate floating ips (admin only)"@,
        RestCallView::DisassociateFloatingIp { .. } => "disassociate floating ips (admin only)"@,
        RestCallView::ReleaseFloatingIp { .. } => "release floating ips (admin only)"@,
    }
}

fn host_scoped(what: &str, host: &str) -> (r: String)
    ensures
        r@ == what@ + debug_text(host@) + " (host-scoped)"@,
{
    let mut s = String::from_str(what);
    s.append(debug_str(host).as_str());
    s.append(" (host-scoped)");
    s
}

/// Writes [`refusal_of`].
pub fn refusal(call: &RestCall) -> (r: String)
    ensures
        r@ == refusal_of(call@),
{
    match call {
        RestCall::CreateHost(b) => host_scoped("add/update host ", b.id.as_str()),
        RestCall::DeleteHost { id } => host_scoped("remove host ", id.as_str()),
        RestCall::CreateNetwork(_) => String::from_str("define networks (admin only)"),
        RestCall::DeleteNetwork { .. } => String::from_str("remove networks (admin only)"),
        RestCall::CreatePort(b) => host_scoped("create ports on host ", b.host.as_str()),
        RestCall::DeletePort { .. } => String::from_str("remove ports (admin only)"),
        RestCall::CreateSubnet(_) => String::from_str("define subnets (admin only)"),
        RestCall::DeleteSubnet { .. } => String::from_str("remove subnets (admin only)"),
        RestCall::CreateSecurityGroup(_) => String::from_str("define security groups (admin only)"),
        RestCall::DeleteSecurityGroup { .. } =>
            String::from_str("remove security groups (admin only)"),
        RestCall::AllocateFloatingIp { .. } =>
            String::from_str("allocate floating ips (admin only)"),
        RestCall::AssociateFloatingIp { .. } =>
            String::from_str("associate floating ips (admin only)"),
        RestCall::DisassociateFloatingIp { .. } =>
            String::from_str("disassociate floating ips (admin only)"),
        RestCall::ReleaseFloatingIp { .. } => String::from_str("release floating ips (admin only)"),
    }
}

/// What the audit trail names as the target.
pub open spec fn target_of(call: RestCallView) -> Seq<char> {
    match call {
        RestCallView::CreateHost(b) => b.id,
        RestCallView::DeleteHost { id } => id,
        RestCallView::CreateNetwork(b) => "vni="@ + decimal(b.vni as nat),
        RestCallView::DeleteNetwork { vni } => "vni="@ + decimal(vni as nat),
        RestCallView::CreatePort(b) => "host="@ + b.host + " vni="@ + decimal(b.network as nat),
        RestCallView::DeletePort { id } => id,
        RestCallView::CreateSubnet(b) => b.id,
        RestCallView::DeleteSubnet { id } => id,
        RestCallView::CreateSecurityGroup(b) => b.name,
        RestCallView::DeleteSecurityGroup { name } => name,
        RestCallView::AllocateFloatingIp { subnet_id, .. } => "subnet="@ + subnet_id,
        RestCallView::AssociateFloatingIp { id, .. } => id,
        RestCallView::DisassociateFloatingIp { id } => id,
        RestCallView::ReleaseFloatingIp { id } => id,
    }
}

/// Writes [`target_of`].
pub fn target(call: &RestCall) -> (r: String)
    ensures
        r@ == target_of(call@),
{
    match call {
        RestCall::CreateHost(b) => b.id.clone(),
        RestCall::DeleteHost { id } => id.clone(),
        RestCall::CreateNetwork(b) => numbered("vni=", b.vni),
        RestCall::DeleteNetwork { vni } => numbered("vni=", *vni),
        RestCall::CreatePort(b) => {
            let mut s = String::from_str("host=");
            s.append(b.host.as_str());
            s.append(" vni=");
            push_decimal(&mut s, b.network as u64);
            s
        },
        RestCall::DeletePort { id } => id.clone(),
        RestCall::CreateSubnet(b) => b.id.clone(),
        RestCall::DeleteSubnet { id } => id.clone(),
        RestCall::CreateSecurityGroup(b) => b.name.clone(),
        RestCall::DeleteSecurityGroup { name } => name.clone(),
        RestCall::AllocateFloatingIp { subnet_id, .. } => {
            let mut s = String::from_str("subnet=");
            s.append(subnet_id.as_str());
            s
        },
        RestCall::AssociateFloatingIp { id, .. } => id.clone(),
        RestCall::DisassociateFloatingIp { id } => id.clone(),
        RestCall::ReleaseFloatingIp { id } => id.clone(),
    }
}

fn numbered(what: &str, n: u32) -> (r: String)
    ensures
        r@ == what@ + decimal(n as nat),
{
    let mut s = String::from_str(what);
    push_decimal(&mut s, n as u64);
    s
}

/// The status of an answer to a request that the fabric turns down: the body is at fault for
/// creations and associations, the state of the fabric for removals.
pub open spec fn rejection_status(call: RestCallView) -> u16 {
    match call {
        RestCallView::DeleteHost { .. } => CONFLICT,
        RestCallView::DeleteNetwork { .. } => CONFLICT,
        RestCallView::DeletePort { .. } => CONFLICT,
        RestCallView::DeleteSubnet { .. } => CONFLICT,
        RestCallView::DeleteSecurityGroup { .. } => CONFLICT,
        RestCallView::ReleaseFloatingIp { .. } => CONFLICT,
        _ => BAD_REQUEST,
    }
}

/// Computes [`rejection_status`].
pub fn when_rejected(call: &RestCall) -> (r: u16)
    ensures
        r == rejection_status(call@),
{
    match call {
        RestCall::DeleteHost { .. } => CONFLICT,
        RestCall::DeleteNetwork { .. } => CONFLICT,
        RestCall::DeletePort { .. } => CONFLICT,
        RestCall::DeleteSubnet { .. } => CONFLICT,
        RestCall::DeleteSecurityGroup { .. } => CONFLICT,
        RestCall::ReleaseFloatingIp { .. } => CONFLICT,
        _ => BAD_REQUEST,
    }
}

// ---------------------------------------------------------------------------
// What a request asks of the fabric
// ---------------------------------------------------------------------------

/// The word of a choice, or the default.
pub open spec fn word_or(o: Option<Seq<char>>, default: Seq<char>) -> Seq<char> {
    match o {
        Some(s) => s,
        None => default,
    }
}

fn word_or_default(o: &Option<String>, default: &str) -> (r: String)
    ensures
        r@ == word_or(opt_view(*o), default@),
{
    match o {
        Some(s) => s.clone(),
        None => String::from_str(default),
    }
}

/// A choice that is not the empty text.
pub open spec fn nonempty(o: Option<Seq<char>>) -> Option<Seq<char>> {
    match o {
        Some(s) => chosen_text(s),
        None => None,
    }
}

fn keep_nonempty(o: &Option<String>) -> (r: Option<String>)
    ensures
        opt_view(r) == nonempty(opt_view(*o)),
{
    match o {
        Some(s) => choose_text(s.as_str()),
        None => None,
    }
}

/// The rule in a body as a message: the protocol is read before the action.
pub open spec fn rule_requested(r: RuleReqView) -> Result<RuleMessageView, ApiErrorView> {
    match proto_named(r.proto) {
        Err(e) => Err(e),
        Ok(proto) => match action_named(r.action) {
            Err(e) => Err(e),
            Ok(action) => Ok(
                RuleMessageView {
                    proto,
                    port: r.port as u32,
                    action,
                    log: r.log,
                    src: text_or_empty(r.src),
                },
            ),
        },
    }
}

fn widened(port: u16) -> (r: u32)
    ensures
        r == port,
{
    port as u32
}

fn request_rule(q: &RuleReq) -> (r: Result<RuleMessage, ApiError>)
    ensures
        api_view(r) == rule_requested(q@),
{
    let proto = match parse_proto(q.proto.as_str()) {
        Ok(p) => p,
        Err(e) => {
            return Err(e);
        },
    };
    let action = match parse_action(q.action.as_str()) {
        Ok(a) => a,
        Err(e) => {
            return Err(e);
        },
    };
    Ok(RuleMessage { proto, port: widened(q.port), action, log: q.log, src: or_empty(&q.src) })
}

/// The rules in a body as messages, or the first that cannot be read.
pub open spec fn rules_requested(rs: Seq<RuleReqView>) -> Result<Seq<RuleMessageView>, ApiErrorView>
    decreases rs.len(),
{
    if rs.len() == 0 {
        Ok(Seq::empty())
    } else {
        match rules_requested(rs.drop_last()) {
            Err(e) => Err(e),
            Ok(ms) => match rule_requested(rs.last()) {
                Err(e) => Err(e),
                Ok(m) => Ok(ms.push(m)),
            },
        }
    }
}

proof fn rules_requested_fail(rs: Seq<RuleReqView>, n: int)
    requires
        0 <= n <= rs.len(),
        rules_requested(rs.take(n)) is Err,
    ensures
        rules_requested(rs) == rules_requested(rs.take(n)),
    decreases rs.len() - n,
{
    if n < rs.len() {
        assert(rs.take(n + 1).drop_last() =~= rs.take(n));
        rules_requested_fail(rs, n + 1);
    } else {
        assert(rs.take(n) =~= rs);
    }
}

fn request_rules(rs: &Vec<RuleReq>) -> (r: Result<Vec<RuleMessage>, ApiError>)
    ensures
        match r {
            Ok(v) => rules_requested(views(rs@))
                == Ok::<Seq<RuleMessageView>, ApiErrorView>(views(v@)),
            Err(e) => rules_requested(views(rs@)) == Err::<Seq<RuleMessageView>, ApiErrorView>(e@),
        },
{
    let ghost all = views(rs@);
    let mut out: Vec<RuleMessage> = Vec::new();
    assert(views(out@) =~= Seq::<RuleMessageView>::empty());
    for i in 0..rs.len()
        invariant
            all == views(rs@),
            rules_requested(all.take(i as int)) == Ok::<Seq<RuleMessageView>, ApiErrorView>(
                views(out@),
            ),
    {
        let ghost before = out@;
        assert(all.take(i as int + 1).drop_last() =~= all.take(i as int));
        assert(all.take(i as int + 1).last() == rs@[i as int]@);
        match request_rule(&rs[i]) {
            Ok(m) => {
                out.push(m);
                assert(views(out@) =~= views(before).push(m@));
            },
            Err(e) => {
                proof {
                    rules_requested_fail(all, i as int + 1);
                }
                return Err(e);
            },
        }
    }
    assert(all.take(all.len() as int) =~= all);
    Ok(out)
}

/// The host that a body asks for.
pub open spec fn host_requested(b: CreateHostReqView) -> Result<TopoRequestView, ApiErrorView> {
    match encap_named(word_or(b.encap, "vxlan"@)) {
        Err(e) => Err(e),
        Ok(encap) => Ok(
            TopoRequestView::AddHost(
                host_asked(
                    HostMessageView {
                        id: b.id,
                        vtep: b.vtep,
                        underlay_iface: b.underlay_iface,
                        underlay_mac: b.underlay_mac,
                        encap,
                        udp_port: b.udp_port,
                        underlay_mtu: b.underlay_mtu,
                    },
                ),
            ),
        ),
    }
}

/// The network that a body asks for.
pub open spec fn network_requested(b: CreateNetworkReqView) -> Result<
    TopoRequestView,
    ApiErrorView,
> {
    match action_named(word_or(b.default_action, "pass"@)) {
        Err(e) => Err(e),
        Ok(default_action) => Ok(
            TopoRequestView::AddNetwork(
                network_asked(
                    NetworkMessageView {
                        vni: b.vni,
                        name: b.name,
                        subnet: b.subnet,
                        default_action,
                        drop_icmp: b.drop_icmp,
                    },
                ),
            ),
        ),
    }
}

/// The subnet that a body asks for.
pub open spec fn subnet_requested(b: CreateSubnetReqView) -> TopoRequestView {
    TopoRequestView::AddSubnet(
        subnet_asked(
            SubnetMessageView {
                id: b.id,
                vni: b.vni,
                cidr: b.cidr,
                gateway: text_or_empty(b.gateway),
                pool_start: text_or_empty(b.pool_start),
                pool_end: text_or_empty(b.pool_end),
                enable_dhcp: b.enable_dhcp,
            },
        ),
    )
}

/// The security group that a body asks for: the default action is read before the rules.
pub open spec fn group_requested(b: CreateSecurityGroupReqView) -> Result<
    TopoRequestView,
    ApiErrorView,
> {
    match action_named(word_or(b.default_action, "pass"@)) {
        Err(e) => Err(e),
        Ok(default_action) => match rules_requested(b.rules) {
            Err(e) => Err(e),
            Ok(rules) => Ok(
                TopoRequestView::AddSecurityGroup(
                    group_asked(
                        SecurityGroupMessageView {
                            name: b.name,
                            default_action,
                            drop_icmp: b.drop_icmp,
                            stateful: b.stateful,
                            blocklist: b.blocklist,
                            rules,
                        },
                    ),
                ),
            ),
        },
    }
}

/// What a request asks of the fabric.
pub open spec fn request_of(call: RestCallView) -> Result<TopoRequestView, ApiErrorView> {
    match call {
        RestCallView::CreateHost(b) => host_requested(b),
        RestCallView::DeleteHost { id } => Ok(TopoRequestView::RemoveHost { id }),
        RestCallView::CreateNetwork(b) => network_requested(b),
        RestCallView::DeleteNetwork { vni } => Ok(TopoRequestView::RemoveNetwork { vni }),
        RestCallView::CreatePort(b) => Ok(
            TopoRequestView::CreatePort {
                vni: b.network,
                host: b.host,
                tap: b.tap,
                ip: nonempty(b.ip),
                policy: b.policy,
            },
        ),
        RestCallView::DeletePort { id } => Ok(TopoRequestView::RemovePort { id }),
        RestCallView::CreateSubnet(b) => Ok(subnet_requested(b)),
        RestCallView::DeleteSubnet { id } => Ok(TopoRequestView::RemoveSubnet { id }),
        RestCallView::CreateSecurityGroup(b) => group_requested(b),
        RestCallView::DeleteSecurityGroup { name } => Ok(
            TopoRequestView::RemoveSecurityGroup { name },
        ),
        RestCallView::AllocateFloatingIp { subnet_id, ip } => Ok(
            TopoRequestView::AllocateFloatingIp { subnet_id, ip: nonempty(ip) },
        ),
        RestCallView::AssociateFloatingIp { id, port_id, fixed_addr } => Ok(
            TopoRequestView::AssociateFloatingIp { id, port_id, fixed_addr },
        ),
        RestCallView::DisassociateFloatingIp { id } => Ok(
            TopoRequestView::DisassociateFloatingIp { id },
        ),
        RestCallView::ReleaseFloatingIp { id } => Ok(TopoRequestView::ReleaseFloatingIp { id }),
    }
}

fn request_host(b: &CreateHostReq) -> (r: Result<TopoRequest, ApiError>)
    ensures
        api_view(r) == host_requested(b@),
{
    match parse_encap(word_or_default(&b.encap, "vxlan").as_str()) {
        Err(e) => Err(e),
        Ok(encap) => {
            let m = HostMessage {
                id: b.id.clone(),
                vtep: b.vtep.clone(),
                underlay_iface: b.underlay_iface.clone(),
                underlay_mac: b.underlay_mac.clone(),
                encap,
                udp_port: b.udp_port,
                underlay_mtu: b.underlay_mtu,
            };
            Ok(TopoRequest::AddHost(raft_host_spec(&m)))
        },
    }
}

fn request_network(b: &CreateNetworkReq) -> (r: Result<TopoRequest, ApiError>)
    ensures
        api_view(r) == network_requested(b@),
{
    match parse_action(word_or_default(&b.default_action, "pass").as_str()) {
        Err(e) => Err(e),
        Ok(default_action) => {
            let m = NetworkMessage {
                vni: b.vni,
                name: b.name.clone(),
                subnet: b.subnet.clone(),
                default_action,
                drop_icmp: b.drop_icmp,
            };
            Ok(TopoRequest::AddNetwork(raft_network_spec(&m)))
        },
    }
}

fn request_subnet(b: &CreateSubnetReq) -> (r: TopoRequest)
    ensures
        r@ == subnet_requested(b@),
{
    let m = SubnetMessage {
        id: b.id.clone(),
        vni: b.vni,
        cidr: b.cidr.clone(),
        gateway: or_empty(&b.gateway),
        pool_start: or_empty(&b.pool_start),
        pool_end: or_empty(&b.pool_end),
        enable_dhcp: b.enable_dhcp,
    };
    TopoRequest::AddSubnet(raft_subnet_spec(&m))
}

fn request_group(b: &CreateSecurityGroupReq) -> (r: Result<TopoRequest, ApiError>)
    ensures
        api_view(r) == group_requested(b@),
{
    match parse_action(word_or_default(&b.default_action, "pass").as_str()) {
        Err(e) => Err(e),
        Ok(default_action) => match request_rules(&b.rules) {
            Err(e) => Err(e),
            Ok(rules) => {
                let m = SecurityGroupMessage {
                    name: b.name.clone(),
                    default_action,
                    drop_icmp: b.drop_icmp,
                    stateful: b.stateful,
                    blocklist: clone_strings(&b.blocklist),
                    rules,
                };
                Ok(TopoRequest::AddSecurityGroup(raft_security_group_spec(&m)))
            },
        },
    }
}

/// Computes [`request_of`].
pub fn request(call: &RestCall) -> (r: Result<TopoRequest, ApiError>)
    ensures
        api_view(r) == request_of(call@),
{
    match call {
        RestCall::CreateHost(b) => request_host(b),
        RestCall::DeleteHost { id } => Ok(TopoRequest::RemoveHost { id: id.clone() }),
        RestCall::CreateNetwork(b) => request_network(b),
        RestCall::DeleteNetwork { vni } => Ok(TopoRequest::RemoveNetwork { vni: *vni }),
        RestCall::CreatePort(b) => Ok(
            TopoRequest::CreatePort {
                vni: b.network,
                host: b.host.clone(),
                tap: b.tap.clone(),
                ip: keep_nonempty(&b.ip),
                policy: b.policy,
            },
        ),
        RestCall::DeletePort { id } => Ok(TopoRequest::RemovePort { id: id.clone() }),
        RestCall::CreateSubnet(b) => Ok(request_subnet(b)),
        RestCall::DeleteSubnet { id } => Ok(TopoRequest::RemoveSubnet { id: id.clone() }),
        RestCall::CreateSecurityGroup(b) => request_group(b),
        RestCall::DeleteSecurityGroup { name } => Ok(
            TopoRequest::RemoveSecurityGroup { name: name.clone() },
        ),
        RestCall::AllocateFloatingIp { subnet_id, ip } => Ok(
            TopoRequest::AllocateFloatingIp {
                subnet_id: subnet_id.clone(),
                ip: keep_nonempty(ip),
            },
        ),
        RestCall::AssociateFloatingIp { id, port_id, fixed_addr } => Ok(
            TopoRequest::AssociateFloatingIp {
                id: id.clone(),
                port_id: port_id.clone(),
                fixed_addr: fixed_addr.clone(),
            },
        ),
        RestCall::DisassociateFloatingIp { id } => Ok(
            TopoRequest::DisassociateFloatingIp { id: id.clone() },
        ),
        RestCall::ReleaseFloatingIp { id } => Ok(TopoRequest::ReleaseFloatingIp { id: id.clone() }),
    }
}

// ---------------------------------------------------------------------------
// From the request to the answer
// ---------------------------------------------------------------------------

/// The audit trail after a record of the outcome `result` of a request.
pub open spec fn audited(
    audit: AuditView,
    now: u64,
    caller: CallerView,
    call: RestCallView,
    result: Seq<char>,
) -> AuditView {
    audit.recorded(
        AuditEntryView {
            seq: audit.seq,
            ts_millis: now,
            actor: actor(caller),
            operation: operation_of(call),
            target: target_of(call),
            result,
        },
    )
}

/// The first half of a request: what to propose to the fabric, or the answer.
///
/// A caller without permission gets status 403, and a body that cannot be read gets status 400.
pub open spec fn begun(
    authz: AuthzView,
    caller: CallerView,
    call: RestCallView,
) -> Result<TopoRequestView, ApiErrorView> {
    if permitted(authz, caller, call) {
        request_of(call)
    } else {
        Err(ApiErrorView { status: FORBIDDEN, message: refusal_of(call) })
    }
}

/// The audit trail once a request has begun: what is answered already is recorded, the refusal of a
/// caller as a denial and that of a body as an error.
pub open spec fn trail_begun(
    audit: AuditView,
    now: u64,
    authz: AuthzView,
    caller: CallerView,
    call: RestCallView,
) -> AuditView {
    if !permitted(authz, caller, call) {
        audited(audit, now, caller, call, "denied"@)
    } else {
        match request_of(call) {
            Ok(_) => audit,
            Err(e) => audited(audit, now, caller, call, "error: "@ + e.message),
        }
    }
}

/// Begins a request, as [`begun`] says, and records it where it is answered already.
pub fn begin(
    authz: &Authz,
    who: &Caller,
    call: &RestCall,
    audit: &mut Audit,
    now: u64,
) -> (r: Result<TopoRequest, ApiError>)
    requires
        old(audit)@.wf(),
    ensures
        final(audit)@.wf(),
        api_view(r) == begun(authz@, who@, call@),
        final(audit)@ == trail_begun(old(audit)@, now, authz@, who@, call@),
{
    if !permits(authz, who, call) {
        audit.record(
            now,
            actor_of(who).as_str(),
            operation(call),
            target(call).as_str(),
            "denied",
        );
        return Err(ApiError::new(FORBIDDEN, refusal(call)));
    }
    match request(call) {
        Ok(r) => Ok(r),
        Err(e) => {
            let mut result = String::from_str("error: ");
            result.append(e.message.as_str());
            audit.record(
                now,
                actor_of(who).as_str(),
                operation(call),
                target(call).as_str(),
                result.as_str(),
            );
            Err(e)
        },
    }
}

/// What the fabric made of a proposal.
pub open spec fn outcome_view(o: Result<TopoResponse, Status>) -> Result<
    TopoResponseView,
    StatusView,
> {
    match o {
        Ok(r) => Ok(r@),
        Err(s) => Err(s@),
    }
}

/// The second half of a request: the fabric's response, or the answer where it turned the proposal
/// down or the controller failed.
pub open spec fn finished(
    call: RestCallView,
    outcome: Result<TopoResponseView, StatusView>,
) -> Result<TopoResponseView, ApiErrorView> {
    match outcome {
        Ok(r) => if r.ok {
            Ok(r)
        } else {
            Err(
                ApiErrorView {
                    status: rejection_status(call),
                    message: word_or(r.error, "rejected"@),
                },
            )
        },
        Err(s) => Err(ApiErrorView { status: http_status(s.code), message: s.message }),
    }
}

/// What the audit trail says of an outcome.
pub open spec fn result_text(r: Result<TopoResponseView, ApiErrorView>) -> Seq<char> {
    match r {
        Ok(_) => "ok"@,
        Err(e) => "error: "@ + e.message,
    }
}

/// Ends a request, as [`finished`] says, and records its outcome.
pub fn finish(
    who: &Caller,
    call: &RestCall,
    outcome: Result<TopoResponse, Status>,
    audit: &mut Audit,
    now: u64,
) -> (r: Result<TopoResponse, ApiError>)
    requires
        old(audit)@.wf(),
    ensures
        final(audit)@.wf(),
        api_view(r) == finished(call@, outcome_view(outcome)),
        final(audit)@ == audited(
            old(audit)@,
            now,
            who@,
            call@,
            result_text(finished(call@, outcome_view(outcome))),
        ),
{
    let answer: Result<TopoResponse, ApiError> = match outcome {
        Ok(response) => if response.ok {
            Ok(response)
        } else {
            Err(
                ApiError::new(
                    when_rejected(call),
                    word_or_default(&response.error, "rejected"),
                ),
            )
        },
        Err(status) => Err(status_to_api(&status)),
    };
    let result: String = match &answer {
        Ok(_) => String::from_str("ok"),
        Err(e) => {
            let mut s = String::from_str("error: ");
            s.append(e.message.as_str());
            s
        },
    };
    audit.record(
        now,
        actor_of(who).as_str(),
        operation(call),
        target(call).as_str(),
        result.as_str(),
    );
    answer
}

/// The port that a response carries, or the failure of a response without one.
pub open spec fn port_returned(r: TopoResponseView) -> Result<PortInfoView, ApiErrorView> {
    match r.port {
        Some(p) => Ok(record_shown(p)),
        None => Err(
            ApiErrorView { status: INTERNAL_SERVER_ERROR, message: "no port returned"@ },
        ),
    }
}

/// Takes the port out of a response.
pub fn created_port(response: TopoResponse) -> (r: Result<PortInfo, ApiError>)
    ensures
        api_view(r) == port_returned(response@),
{
    match response.port {
        Some(p) => Ok(port_record_to_info(p)),
        None => Err(ApiError::new(INTERNAL_SERVER_ERROR, String::from_str("no port returned"))),
    }
}

/// The floating address that a response carries, or the failure of a response without one.
pub open spec fn floating_returned(r: TopoResponseView) -> Result<
    FloatingIpJsonView,
    ApiErrorView,
> {
    match r.floating {
        Some(f) => Ok(floating_record_json(f)),
        None => Err(ApiErrorView { status: INTERNAL_SERVER_ERROR, message: "no floating ip"@ }),
    }
}

/// Takes the floating address out of a response.
pub fn returned_floating_ip(response: &TopoResponse) -> (r: Result<FloatingIpJson, ApiError>)
    ensures
        api_view(r) == floating_returned(response@),
{
    match &response.floating {
        Some(f) => Ok(show_floating_record(f)),
        None => Err(ApiError::new(INTERNAL_SERVER_ERROR, String::from_str("no floating ip"))),
    }
}

// ---------------------------------------------------------------------------
// Laws
// ---------------------------------------------------------------------------

/// A refused request changes nothing: it is answered with status 403 and no proposal is made, for
/// whatever body it carries. A request is refused exactly where the policy does not permit it.
pub proof fn refused_request_proposes_nothing(
    authz: AuthzView,
    caller: CallerView,
    call: RestCallView,
)
    ensures
        !permitted(authz, caller, call) ==> begun(authz, caller, call) == Err::<
            TopoRequestView,
            ApiErrorView,
        >(ApiErrorView { status: FORBIDDEN, message: refusal_of(call) }),
        begun(authz, caller, call) is Ok ==> permitted(authz, caller, call),
        permitted(authz, caller, call) ==> (begun(authz, caller, call) matches Err(e)
            ==> e.status == BAD_REQUEST),
{
    if permitted(authz, caller, call) {
        match call {
            RestCallView::CreateSecurityGroup(b) => {
                rule_errors_are_requests(b.rules);
            },
            _ => {},
        }
    }
}

proof fn rule_errors_are_requests(rs: Seq<RuleReqView>)
    ensures
        rules_requested(rs) matches Err(e) ==> e.status == BAD_REQUEST,
    decreases rs.len(),
{
    if rs.len() > 0 {
        rule_errors_are_requests(rs.drop_last());
    }
}

/// Under an enforced policy a caller without a known token may change nothing.
pub proof fn unknown_token_changes_nothing(
    authz: AuthzView,
    tokens: Map<Seq<char>, Seq<char>>,
    header: Option<Seq<char>>,
    call: RestCallView,
)
    requires
        authz.enforced,
        bearer_of(header) is None || !tokens.dom().contains(bearer_of(header)->0),
    ensures
        begun(authz, presented_by(tokens, header), call) is Err,
{
}

/// A node that is no administrator may register or retire itself and create ports on itself, and
/// may request nothing else.
pub proof fn node_requests_are_confined(authz: AuthzView, node: Seq<char>, call: RestCallView)
    requires
        authz.enforced,
        !authz.admins.contains(node),
    ensures
        permitted(authz, CallerView::Cert(node), call) == (host_of(call) == Some(node)),
{
}

/// The audit trail after a request: once it has begun, and where something was proposed, once it has
/// ended with the given outcome.
pub open spec fn trail_after(
    audit: AuditView,
    now: u64,
    later: u64,
    authz: AuthzView,
    caller: CallerView,
    call: RestCallView,
    outcome: Result<TopoResponseView, StatusView>,
) -> AuditView {
    let begun_trail = trail_begun(audit, now, authz, caller, call);
    match begun(authz, caller, call) {
        Ok(_) => audited(begun_trail, later, caller, call, result_text(finished(call, outcome))),
        Err(_) => begun_trail,
    }
}

/// Every request leaves one record: of a denial, of an error, or of success.
pub proof fn request_is_recorded_once(
    audit: AuditView,
    now: u64,
    later: u64,
    authz: AuthzView,
    caller: CallerView,
    call: RestCallView,
    outcome: Result<TopoResponseView, StatusView>,
)
    ensures
        ({
            let after = trail_after(audit, now, later, authz, caller, call, outcome);
            let e = after.ring.last();
            &&& after == audit.recorded(e)
            &&& e.seq == audit.seq
            &&& e.actor == actor(caller)
            &&& e.operation == operation_of(call)
            &&& e.target == target_of(call)
            &&& e.result == (if !permitted(authz, caller, call) {
                "denied"@
            } else {
                match request_of(call) {
                    Err(refused) => "error: "@ + refused.message,
                    Ok(_) => result_text(finished(call, outcome)),
                }
            })
        }),
{
}

/// Every answer of the fabric is recorded as what the caller is told: `ok` exactly where the caller
/// gets the response.
pub proof fn outcome_is_recorded_as_answered(
    call: RestCallView,
    outcome: Result<TopoResponseView, StatusView>,
)
    ensures
        finished(call, outcome) is Ok <==> (outcome is Ok && outcome->Ok_0.ok),
        finished(call, outcome) matches Ok(r) ==> r == outcome->Ok_0 && result_text(
            finished(call, outcome),
        ) == "ok"@,
        finished(call, outcome) matches Err(e) ==> result_text(finished(call, outcome))
            == "error: "@ + e.message,
{
}

/// A header presents a token exactly where it starts with `Bearer ` in this spelling: what follows,
/// without the white space around it.
pub proof fn bearer_is_what_follows(token: Seq<char>, header: Seq<char>)
    ensures
        bearer_of(Some("Bearer "@ + token)) == Some(trimmed(token)),
        bearer_of(Some(header)) is Some ==> exists|t: Seq<char>| header == #[trigger] ("Bearer "@ + t),
        bearer_of(None) is None,
{
    reveal_strlit("Bearer ");
    let p = "Bearer "@;
    let h = p + token;
    assert(p =~= h.subrange(0, p.len() as int));
    assert(h.skip(p.len() as int) =~= token);
    if bearer_of(Some(header)) is Some {
        let t = header.skip(p.len() as int);
        assert(header =~= p + t);
    }
}

/// The caller is the one that the presented token is for; without a token that is known it is nobody.
pub proof fn caller_is_that_of_the_token(
    tokens: Map<Seq<char>, Seq<char>>,
    header: Option<Seq<char>>,
)
    ensures
        match presented_by(tokens, header) {
            CallerView::Cert(name) => bearer_of(header) matches Some(t) && tokens.dom().contains(t)
                && name == tokens[t],
            CallerView::Anonymous => !(bearer_of(header) matches Some(t) && tokens.dom().contains(
                t,
            )),
        },
{
}

/// Failures of the controller over HTTP: a denial is 403, an invalid argument 400, what is not found
/// 404, what stands in the way 409, and anything else 500.
pub proof fn failures_over_http(c: Code)
    ensures
        http_status(c) == match c {
            Code::PermissionDenied => 403u16,
            Code::InvalidArgument => 400u16,
            Code::NotFound => 404u16,
            Code::FailedPrecondition => 409u16,
            Code::AlreadyExists => 409u16,
            Code::Internal => 500u16,
            Code::Other => 500u16,
        },
{
}

/// Which words a body may hold: two actions, three protocols, and two encapsulations.
pub proof fn words_are_read(s: Seq<char>)
    ensures
        action_named(s) == Ok::<WireAction, ApiErrorView>(WireAction::Pass) <==> s == "pass"@,
        action_named(s) == Ok::<WireAction, ApiErrorView>(WireAction::Drop) <==> s == "drop"@,
        action_named(s) matches Err(e) ==> e.status == 400,
        proto_named(s) == Ok::<ProtoName, ApiErrorView>(ProtoName::Tcp) <==> s == "tcp"@,
        proto_named(s) == Ok::<ProtoName, ApiErrorView>(ProtoName::Udp) <==> s == "udp"@,
        proto_named(s) == Ok::<ProtoName, ApiErrorView>(ProtoName::Icmp) <==> s == "icmp"@,
        proto_named(s) matches Err(e) ==> e.status == 400,
        encap_named(s) == Ok::<EncapName, ApiErrorView>(EncapName::Vxlan) <==> s == "vxlan"@,
        encap_named(s) == Ok::<EncapName, ApiErrorView>(EncapName::Geneve) <==> s == "geneve"@,
        encap_named(s) != Ok::<EncapName, ApiErrorView>(EncapName::Srv6),
        encap_named(s) matches Err(e) ==> e.status == 400,
{
    reveal_strlit("pass");
    reveal_strlit("drop");
    reveal_strlit("tcp");
    reveal_strlit("udp");
    reveal_strlit("icmp");
    reveal_strlit("vxlan");
    reveal_strlit("geneve");
    assert("pass"@[0] == 'p' && "drop"@[0] == 'd');
    assert("tcp"@[0] == 't' && "udp"@[0] == 'u' && "icmp"@[0] == 'i');
    assert("vxlan"@[0] == 'v' && "geneve"@[0] == 'g');
}

/// Whether the request is one that a node may make for the host of its own name: to register or
/// retire it, or to create a port on it.
pub open spec fn is_about_host(call: RestCallView, host: Seq<char>) -> bool {
    match call {
        RestCallView::CreateHost(b) => b.id == host,
        RestCallView::DeleteHost { id } => id == host,
        RestCallView::CreatePort(b) => b.host == host,
        _ => false,
    }
}

/// Who may request what under an enforced policy: an administrator everything, a node what is about
/// the host of its name, and nobody else anything. Whoever may not is answered with status 403.
pub proof fn requesters_are_known(authz: AuthzView, caller: CallerView, call: RestCallView)
    ensures
        permitted(authz, caller, call) <==> !authz.enforced || (caller matches CallerView::Cert(n)
            && (authz.admins.contains(n) || is_about_host(call, n))),
        !permitted(authz, caller, call) ==> (begun(authz, caller, call) matches Err(e) && e.status
            == 403),
{
}

/// The text of an optional field is a choice unless it is missing or empty.
pub open spec fn chooses(given: Option<Seq<char>>, o: Option<Seq<char>>) -> bool {
    &&& o is None <==> (given is None || given->0.len() == 0)
    &&& o matches Some(x) ==> given == Some(x)
}

/// The word of an optional field names the action, and its absence lets packets pass.
pub open spec fn names_action(given: Option<Seq<char>>, a: ActionName) -> bool {
    &&& given is None ==> a == ActionName::Pass
    &&& given matches Some(s) ==> (s == "pass"@ && a == ActionName::Pass) || (s == "drop"@ && a
        == ActionName::Drop)
}

/// A request for a host asks the fabric for it as the body describes it: with VXLAN where the body
/// says nothing, and with the numbers that are not zero. It fails exactly where the encapsulation is
/// not one of the two words.
pub proof fn host_body_is_carried(b: CreateHostReqView)
    ensures
        request_of(RestCallView::CreateHost(b)) is Ok <==> b.encap is None || b.encap == Some(
            "vxlan"@,
        ) || b.encap == Some("geneve"@),
        request_of(RestCallView::CreateHost(b)) matches Ok(req) ==> (
        req matches TopoRequestView::AddHost(s) && {
            &&& s.id == b.id
            &&& s.vtep == b.vtep
            &&& s.underlay_iface == b.underlay_iface
            &&& s.underlay_mac == b.underlay_mac
            &&& s.encap == EncapName::Geneve <==> b.encap == Some("geneve"@)
            &&& s.encap != EncapName::Srv6
            &&& carries_number(b.udp_port, s.udp_port)
            &&& carries_number(b.underlay_mtu, s.underlay_mtu)
        }),
{
    words_are_read(word_or(b.encap, "vxlan"@));
    reveal_strlit("vxlan");
    reveal_strlit("geneve");
    assert("vxlan"@[0] == 'v' && "geneve"@[0] == 'g');
}

/// A request for a network asks the fabric for it as the body describes it, letting packets pass where
/// the body says nothing. It fails exactly where the default action is not one of the two words.
pub proof fn network_body_is_carried(b: CreateNetworkReqView)
    ensures
        request_of(RestCallView::CreateNetwork(b)) is Ok <==> b.default_action is None
            || b.default_action == Some("pass"@) || b.default_action == Some("drop"@),
        request_of(RestCallView::CreateNetwork(b)) matches Ok(req) ==> (
        req matches TopoRequestView::AddNetwork(s) && {
            &&& s.vni == b.vni
            &&& s.name == b.name
            &&& s.subnet == b.subnet
            &&& names_action(b.default_action, s.default_action)
            &&& s.drop_icmp == b.drop_icmp
        }),
{
    words_are_read(word_or(b.default_action, "pass"@));
    reveal_strlit("pass");
    reveal_strlit("drop");
    assert("pass"@[0] == 'p' && "drop"@[0] == 'd');
}

/// The message carries the rule of a body.
pub open spec fn carries_rule(q: RuleReqView, r: PortRuleView) -> bool {
    &&& q.proto == "tcp"@ <==> r.proto == ProtoName::Tcp
    &&& q.proto == "udp"@ <==> r.proto == ProtoName::Udp
    &&& q.proto == "icmp"@ <==> r.proto == ProtoName::Icmp
    &&& r.port == q.port
    &&& names_action(Some(q.action), r.action)
    &&& r.log == q.log
    &&& chooses(q.src, r.src)
}

/// The words of a rule can be read.
pub open spec fn readable_rule(q: RuleReqView) -> bool {
    &&& q.proto == "tcp"@ || q.proto == "udp"@ || q.proto == "icmp"@
    &&& q.action == "pass"@ || q.action == "drop"@
}

proof fn rule_is_carried(q: RuleReqView)
    ensures
        rule_requested(q) is Ok <==> readable_rule(q),
        rule_requested(q) matches Ok(m) ==> carries_rule(q, rule_asked(m)),
{
    words_are_read(q.proto);
    words_are_read(q.action);
    reveal_strlit("tcp");
    reveal_strlit("udp");
    reveal_strlit("icmp");
    assert("tcp"@[0] == 't' && "udp"@[0] == 'u' && "icmp"@[0] == 'i');
    if let Ok(m) = rule_requested(q) {
        port_is_kept(q.port, m.port);
    }
}

proof fn port_is_kept(a: u16, b: u32)
    requires
        a == b,
    ensures
        low16_of(b) == a,
{
    assert(b % 0x1_0000 == b);
}

proof fn rules_are_carried(qs: Seq<RuleReqView>)
    ensures
        rules_requested(qs) is Ok <==> forall|i: int|
            0 <= i < qs.len() ==> readable_rule(#[trigger] qs[i]),
        rules_requested(qs) matches Ok(ms) ==> ms.len() == qs.len() && forall|i: int|
            0 <= i < qs.len() ==> carries_rule(#[trigger] qs[i], rule_asked(ms[i])),
    decreases qs.len(),
{
    if qs.len() > 0 {
        let front = qs.drop_last();
        let z = qs.len() - 1;
        rules_are_carried(front);
        rule_is_carried(qs[z]);
        assert forall|i: int| 0 <= i < z implies front[i] == #[trigger] qs[i] by {}
        if rules_requested(front) is Err {
            let i = choose|i: int| 0 <= i < front.len() && !readable_rule(#[trigger] front[i]);
            assert(!readable_rule(qs[i]));
        }
        if rules_requested(qs) is Ok {
            assert forall|i: int| 0 <= i < qs.len() implies readable_rule(#[trigger] qs[i]) by {
                if i < z {
                    assert(readable_rule(front[i]));
                }
            }
        }
    }
}

/// A request for a security group asks the fabric for it as the body describes it, with its rules in
/// their order, letting packets pass where the body says nothing. It fails exactly where the default
/// action or a word of a rule cannot be read.
pub proof fn group_body_is_carried(b: CreateSecurityGroupReqView)
    ensures
        request_of(RestCallView::CreateSecurityGroup(b)) is Ok <==> (b.default_action is None
            || b.default_action == Some("pass"@) || b.default_action == Some("drop"@)) && (forall|
            i: int,
        |
            0 <= i < b.rules.len() ==> readable_rule(#[trigger] b.rules[i])),
        request_of(RestCallView::CreateSecurityGroup(b)) matches Ok(req) ==> (
        req matches TopoRequestView::AddSecurityGroup(s) && {
            &&& s.name == b.name
            &&& names_action(b.default_action, s.default_action)
            &&& s.drop_icmp == b.drop_icmp
            &&& s.stateful == b.stateful
            &&& s.blocklist == b.blocklist
            &&& s.rules.len() == b.rules.len()
            &&& forall|i: int|
                0 <= i < b.rules.len() ==> carries_rule(#[trigger] b.rules[i], s.rules[i])
        }),
{
    words_are_read(word_or(b.default_action, "pass"@));
    rules_are_carried(b.rules);
    reveal_strlit("pass");
    reveal_strlit("drop");
    assert("pass"@[0] == 'p' && "drop"@[0] == 'd');
}

/// Every other request asks the fabric for what it says, with its own arguments, and cannot fail to be
/// read.
pub proof fn other_requests_are_carried(call: RestCallView)
    ensures
        match call {
            RestCallView::CreatePort(b) => request_of(call) matches Ok(
                TopoRequestView::CreatePort { vni, host, tap, ip, policy },
            ) && vni == b.network && host == b.host && tap == b.tap && chooses(b.ip, ip) && policy
                == b.policy,
            RestCallView::CreateSubnet(b) => request_of(call) matches Ok(
                TopoRequestView::AddSubnet(s),
            ) && s.id == b.id && s.vni == b.vni && s.cidr == b.cidr && chooses(b.gateway, s.gateway)
                && chooses(b.pool_start, s.pool_start) && chooses(b.pool_end, s.pool_end)
                && s.enable_dhcp == b.enable_dhcp,
            RestCallView::DeleteHost { id } => request_of(call) matches Ok(
                TopoRequestView::RemoveHost { id: x },
            ) && x == id,
            RestCallView::DeleteNetwork { vni } => request_of(call) matches Ok(
                TopoRequestView::RemoveNetwork { vni: x },
            ) && x == vni,
            RestCallView::DeletePort { id } => request_of(call) matches Ok(
                TopoRequestView::RemovePort { id: x },
            ) && x == id,
            RestCallView::DeleteSubnet { id } => request_of(call) matches Ok(
                TopoRequestView::RemoveSubnet { id: x },
            ) && x == id,
            RestCallView::DeleteSecurityGroup { name } => request_of(call) matches Ok(
                TopoRequestView::RemoveSecurityGroup { name: x },
            ) && x == name,
            RestCallView::AllocateFloatingIp { subnet_id, ip } => request_of(call) matches Ok(
                TopoRequestView::AllocateFloatingIp { subnet_id: x, ip: a },
            ) && x == subnet_id && chooses(ip, a),
            RestCallView::AssociateFloatingIp { id, port_id, fixed_addr } => request_of(
                call,
            ) matches Ok(
                TopoRequestView::AssociateFloatingIp { id: x, port_id: p, fixed_addr: a },
            ) && x == id && p == port_id && a == fixed_addr,
            RestCallView::DisassociateFloatingIp { id } => request_of(call) matches Ok(
                TopoRequestView::DisassociateFloatingIp { id: x },
            ) && x == id,
            RestCallView::ReleaseFloatingIp { id } => request_of(call) matches Ok(
                TopoRequestView::ReleaseFloatingIp { id: x },
            ) && x == id,
            _ => true,
        },
{
}

/// How a request is answered once the fabric responded: with the response where it succeeded; where
/// the fabric turned it down, with its reason, as a conflict for a removal and as a bad request for
/// anything else; and where the controller failed, with that failure.
pub proof fn request_is_answered(
    call: RestCallView,
    outcome: Result<TopoResponseView, StatusView>,
)
    ensures
        match (outcome, finished(call, outcome)) {
            (Ok(r), Ok(x)) => r.ok && x == r,
            (Ok(r), Err(e)) => {
                &&& !r.ok
                &&& r.error matches Some(m) ==> e.message == m
                &&& e.status == 409 <==> (call is DeleteHost || call is DeleteNetwork
                    || call is DeletePort || call is DeleteSubnet || call is DeleteSecurityGroup
                    || call is ReleaseFloatingIp)
                &&& e.status == 409 || e.status == 400
            },
            (Err(s), Err(e)) => e.message == s.message && e.status == http_status(s.code),
            (Err(_), Ok(_)) => false,
        },
{
}

/// What the audit trail says: who asked, by the caller's name; the operation; and what it was about.
pub proof fn records_name_the_request(caller: CallerView, call: RestCallView)
    ensures
        caller matches CallerView::Cert(n) ==> actor(caller) == n,
        caller == CallerView::Anonymous ==> actor(caller) == "anonymous"@,
        match call {
            RestCallView::CreateHost(b) => operation_of(call) == "host.create"@ && target_of(call)
                == b.id,
            RestCallView::DeleteHost { id } => operation_of(call) == "host.delete"@ && target_of(
                call,
            ) == id,
            RestCallView::CreateNetwork(b) => operation_of(call) == "network.create"@ && target_of(
                call,
            ) == "vni="@ + decimal(b.vni as nat),
            RestCallView::DeleteNetwork { vni } => operation_of(call) == "network.delete"@
                && target_of(call) == "vni="@ + decimal(vni as nat),
            RestCallView::CreatePort(b) => operation_of(call) == "port.create"@ && target_of(call)
                == "host="@ + b.host + " vni="@ + decimal(b.network as nat),
            RestCallView::DeletePort { id } => operation_of(call) == "port.delete"@ && target_of(
                call,
            ) == id,
            RestCallView::CreateSubnet(b) => operation_of(call) == "subnet.create"@ && target_of(
                call,
            ) == b.id,
            RestCallView::DeleteSubnet { id } => operation_of(call) == "subnet.delete"@
                && target_of(call) == id,
            RestCallView::CreateSecurityGroup(b) => operation_of(call) == "security-group.create"@
                && target_of(call) == b.name,
            RestCallView::DeleteSecurityGroup { name } => operation_of(call)
                == "security-group.delete"@ && target_of(call) == name,
            RestCallView::AllocateFloatingIp { subnet_id, .. } => operation_of(call)
                == "floating-ip.allocate"@ && target_of(call) == "subnet="@ + subnet_id,
            RestCallView::AssociateFloatingIp { id, .. } => operation_of(call)
                == "floating-ip.associate"@ && target_of(call) == id,
            RestCallView::DisassociateFloatingIp { id } => operation_of(call)
                == "floating-ip.disassociate"@ && target_of(call) == id,
            RestCallView::ReleaseFloatingIp { id } => operation_of(call) == "floating-ip.release"@
                && target_of(call) == id,
        },
{
}

/// The port or the floating address that a response carries is what the caller gets; a response
/// without it is a failure of the controller.
pub proof fn response_is_taken_out(r: TopoResponseView)
    ensures
        r.port is None <==> port_returned(r) is Err,
        port_returned(r) matches Ok(p) ==> p.id == r.port->0.id && p.vni == r.port->0.vni && p.host
            == r.port->0.host && p.ip == r.port->0.ip && p.mac == r.port->0.mac && p.tap
            == r.port->0.tap,
        port_returned(r) matches Err(e) ==> e.status == 500,
        r.floating is None <==> floating_returned(r) is Err,
        floating_returned(r) matches Ok(f) ==> f.id == r.floating->0.id && f.vni
            == r.floating->0.vni && f.subnet_id == r.floating->0.subnet_id && f.addr
            == r.floating->0.addr,
        floating_returned(r) matches Err(e) ==> e.status == 500,
{
}

/// What is seen of the records of this module is all that they hold, field by field.
pub proof fn rest_records_are_seen_whole(
    status: Status,
    create_host_req: CreateHostReq,
    create_network_req: CreateNetworkReq,
    create_port_req: CreatePortReq,
    create_subnet_req: CreateSubnetReq,
    rule_req: RuleReq,
    create_security_group_req: CreateSecurityGroupReq,
)
    ensures
        status@.code == status.code,
        status@.message == status.message@,
        create_host_req@.id == create_host_req.id@,
        create_host_req@.vtep == create_host_req.vtep@,
        create_host_req@.underlay_iface == create_host_req.underlay_iface@,
        create_host_req@.underlay_mac == create_host_req.underlay_mac@,
        create_host_req@.encap == opt_view(create_host_req.encap),
        create_host_req@.udp_port == create_host_req.udp_port,
        create_host_req@.underlay_mtu == create_host_req.underlay_mtu,
        create_network_req@.vni == create_network_req.vni,
        create_network_req@.name == create_network_req.name@,
        create_network_req@.subnet == create_network_req.subnet@,
        create_network_req@.default_action == opt_view(create_network_req.default_action),
        create_network_req@.drop_icmp == create_network_req.drop_icmp,
        create_port_req@.network == create_port_req.network,
        create_port_req@.host == create_port_req.host@,
        create_port_req@.tap == create_port_req.tap@,
        create_port_req@.ip == opt_view(create_port_req.ip),
        create_port_req@.policy == create_port_req.policy,
        create_subnet_req@.id == create_subnet_req.id@,
        create_subnet_req@.vni == create_subnet_req.vni,
        create_subnet_req@.cidr == create_subnet_req.cidr@,
        create_subnet_req@.gateway == opt_view(create_subnet_req.gateway),
        create_subnet_req@.pool_start == opt_view(create_subnet_req.pool_start),
        create_subnet_req@.pool_end == opt_view(create_subnet_req.pool_end),
        create_subnet_req@.enable_dhcp == create_subnet_req.enable_dhcp,
        rule_req@.proto == rule_req.proto@,
        rule_req@.port == rule_req.port,
        rule_req@.action == rule_req.action@,
        rule_req@.log == rule_req.log,
        rule_req@.src == opt_view(rule_req.src),
        create_security_group_req@.name == create_security_group_req.name@,
        create_security_group_req@.default_action == opt_view(create_security_group_req.default_action),
        create_security_group_req@.drop_icmp == create_security_group_req.drop_icmp,
        create_security_group_req@.stateful == create_security_group_req.stateful,
        create_security_group_req@.blocklist == views(create_security_group_req.blocklist@),
        create_security_group_req@.rules == views(create_security_group_req.rules@),
{
}

/// A word that stands for nothing is a bad request, and the answer repeats it and names those that
/// can be used.
pub proof fn unknown_word_is_told(s: Seq<char>)
    ensures
        action_named(s) matches Err(e) ==> e.status == 400 && e.message == "unknown action "@
            + debug_text(s) + " (use pass or drop)"@,
        proto_named(s) matches Err(e) ==> e.status == 400 && e.message == "unknown proto "@
            + debug_text(s) + " (use tcp/udp/icmp)"@,
        encap_named(s) matches Err(e) ==> e.status == 400 && e.message == "unknown encap "@
            + debug_text(s) + " (use vxlan or geneve)"@,
{
}

/// What a caller without leave is told: what was asked, with the host where a node could have asked
/// it of its own host, and else that only an administrator may.
pub proof fn refused_caller_is_told_what(call: RestCallView)
    ensures
        call matches RestCallView::CreateHost(b) ==> refusal_of(call) == "add/update host "@
            + debug_text(b.id) + " (host-scoped)"@,
        call matches RestCallView::DeleteHost { id } ==> refusal_of(call) == "remove host "@
            + debug_text(id) + " (host-scoped)"@,
        call matches RestCallView::CreatePort(b) ==> refusal_of(call) == "create ports on host "@
            + debug_text(b.host) + " (host-scoped)"@,
        call is CreateNetwork ==> refusal_of(call) == "define networks (admin only)"@,
        call is DeleteNetwork ==> refusal_of(call) == "remove networks (admin only)"@,
        call is DeletePort ==> refusal_of(call) == "remove ports (admin only)"@,
        call is CreateSubnet ==> refusal_of(call) == "define subnets (admin only)"@,
        call is DeleteSubnet ==> refusal_of(call) == "remove subnets (admin only)"@,
        call is CreateSecurityGroup ==> refusal_of(call) == "define security groups (admin only)"@,
        call is DeleteSecurityGroup ==> refusal_of(call) == "remove security groups (admin only)"@,
        call is AllocateFloatingIp ==> refusal_of(call) == "allocate floating ips (admin only)"@,
        call is AssociateFloatingIp ==> refusal_of(call) == "associate floating ips (admin only)"@,
        call is DisassociateFloatingIp ==> refusal_of(call)
            == "disassociate floating ips (admin only)"@,
        call is ReleaseFloatingIp ==> refusal_of(call) == "release floating ips (admin only)"@,
{
}

/// A rejection that gives no reason reads `rejected`, and a success without the port or the floating
/// address that it should bring is a failure of the server.
pub proof fn unexplained_answers_are_told(call: RestCallView, r: TopoResponseView)
    ensures
        !r.ok && r.error is None ==> (finished(call, Ok::<TopoResponseView, StatusView>(r)) matches Err(
            e,
        ) && e.message == "rejected"@),
        !r.ok ==> (r.error matches Some(t) ==> (finished(
            call,
            Ok::<TopoResponseView, StatusView>(r),
        ) matches Err(e) && e.message == t)),
        r.port is None ==> (port_returned(r) matches Err(e) && e.status == 500 && e.message
            == "no port returned"@),
        r.floating is None ==> (floating_returned(r) matches Err(e) && e.status == 500 && e.message
            == "no floating ip"@),
{
}

} // verus!
