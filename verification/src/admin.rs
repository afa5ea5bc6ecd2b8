//! The administrative services: who may call what, what is proposed, and how the caller is
//! answered.

use vstd::prelude::*;

use crate::authz::{Authz, AuthzView, Caller, CallerView};
use crate::messages::{
    choose_text, chosen_text, group_asked, host_asked, network_asked, port_record_to_info,
    raft_host_spec, raft_network_spec, raft_security_group_spec, record_shown, text_or_empty,
    HostMessage, HostMessageView, NetworkMessage, NetworkMessageView, PortInfo, PortInfoView,
    SecurityGroupMessage, SecurityGroupMessageView,
};
use crate::rest::{Code, Status, StatusView};
use crate::store::{NodeId, TopoRequest, TopoRequestView, TopoResponse, TopoResponseView};
use crate::text::{clone_opt, debug_str, debug_text, decimal, opt_view, push_decimal};

verus! {

/// The view of what a call gives.
pub open spec fn status_view<T: View>(r: Result<T, Status>) -> Result<T::V, StatusView> {
    match r {
        Ok(x) => Ok(x@),
        Err(e) => Err(e@),
    }
}

/// That the caller is not authorized to do `what`.
pub open spec fn denied(what: Seq<char>) -> StatusView {
    StatusView { code: Code::PermissionDenied, message: "not authorized to "@ + what }
}

/// Writes [`denied`].
pub fn deny(what: &str) -> (r: Status)
    ensures
        r@ == denied(what@),
{
    let mut message = String::from_str("not authorized to ");
    message.append(what);
    Status { code: Code::PermissionDenied, message }
}

/// Writes [`denied`] of something that is done to `name`.
pub fn deny_named(what: &str, name: &str) -> (r: Status)
    ensures
        r@ == denied(what@ + debug_text(name@)),
{
    let mut text = String::from_str(what);
    text.append(debug_str(name).as_str());
    deny(text.as_str())
}

/// A call of the orchestration service that changes the fabric.
#[derive(Debug, PartialEq, Eq)]
pub enum OrchCall {
    /// Register or update a host.
    AddHost(HostMessage),
    /// Define a network.
    AddNetwork(NetworkMessage),
    /// Create a port; the empty address asks for the next free one.
    CreatePort { network: u32, host: String, tap: String, ip: String, policy: Option<u32> },
    /// Remove a port.
    RemovePort { id: String },
    /// Move a port to another host.
    MigratePort { id: String, host: String, tap: String },
    /// Retire a host.
    RemoveHost { id: String },
    /// Decommission a network.
    RemoveNetwork { vni: u32 },
    /// Define a security group.
    AddSecurityGroup(SecurityGroupMessage),
    /// Remove a security group.
    RemoveSecurityGroup { name: String },
    /// Bind a port to a security group, or clear the binding.
    BindPortSecurityGroup { port_id: String, group: Option<String> },
}

/// What an [`OrchCall`] holds.
pub enum OrchCallView {
    AddHost(HostMessageView),
    AddNetwork(NetworkMessageView),
    CreatePort {
        network: u32,
        host: Seq<char>,
        tap: Seq<char>,
        ip: Seq<char>,
        policy: Option<u32>,
    },
    RemovePort { id: Seq<char> },
    MigratePort { id: Seq<char>, host: Seq<char>, tap: Seq<char> },
    RemoveHost { id: Seq<char> },
    RemoveNetwork { vni: u32 },
    AddSecurityGroup(SecurityGroupMessageView),
    RemoveSecurityGroup { name: Seq<char> },
    BindPortSecurityGroup { port_id: Seq<char>, group: Option<Seq<char>> },
}

impl View for OrchCall {
    type V = OrchCallView;

    open spec fn view(&self) -> OrchCallView {
        match self {
            OrchCall::AddHost(m) => OrchCallView::AddHost(m@),
            OrchCall::AddNetwork(m) => OrchCallView::AddNetwork(m@),
            OrchCall::CreatePort { network, host, tap, ip, policy } => OrchCallView::CreatePort {
                network: *network,
                host: host@,
                tap: tap@,
                ip: ip@,
                policy: *policy,
            },
            OrchCall::RemovePort { id } => OrchCallView::RemovePort {
                id: id@,
            },
            OrchCall::MigratePort { id, host, tap } => OrchCallView::MigratePort {
                id: id@,
                host: host@,
                tap: tap@,
            },
            OrchCall::RemoveHost { id } => OrchCallView::RemoveHost {
                id: id@,
            },
            OrchCall::RemoveNetwork { vni } => OrchCallView::RemoveNetwork {
                vni: *vni,
            },
            OrchCall::AddSecurityGroup(m) => OrchCallView::AddSecurityGroup(m@),
            OrchCall::RemoveSecurityGroup { name } => OrchCallView::RemoveSecurityGroup {
                name: name@,
            },
            OrchCall::BindPortSecurityGroup { port_id, group } =>
                OrchCallView::BindPortSecurityGroup {
                port_id: port_id@,
                group: opt_view(*group),
            },
        }
    }
}

/// The host that a call is confined to, if it concerns one host alone.
pub open spec fn host_of_call(call: OrchCallView) -> Option<Seq<char>> {
    match call {
        OrchCallView::AddHost(m) => Some(m.id),
        OrchCallView::CreatePort { host, .. } => Some(host),
        OrchCallView::RemoveHost { id } => Some(id),
        _ => None,
    }
}

/// Whether the policy lets `caller` make the call.
pub open spec fn may_call(authz: AuthzView, caller: CallerView, call: OrchCallView) -> bool {
    match host_of_call(call) {
        Some(host) => authz.may_write_host(caller, host),
        None => authz.may_administer(caller),
    }
}

/// What a caller without permission is told that it may not do.
pub open spec fn forbidden_act(call: OrchCallView) -> Seq<char> {
    match call {
        OrchCallView::AddHost(m) => "add/update host "@ + debug_text(m.id),
        OrchCallView::AddNetwork(_) => "define networks (admin only)"@,
        OrchCallView::CreatePort { host, .. } => "create ports on host "@ + debug_text(host),
        OrchCallView::RemovePort { .. } => "remove ports (admin only)"@,
        OrchCallView::MigratePort { .. } => "migrate ports (admin only)"@,
        OrchCallView::RemoveHost { id } => "remove host "@ + debug_text(id),
        OrchCallView::RemoveNetwork { .. } => "remove networks (admin only)"@,
        OrchCallView::AddSecurityGroup(_) => "define security groups (admin only)"@,
        OrchCallView::RemoveSecurityGroup { .. } => "remove security groups (admin only)"@,
        OrchCallView::BindPortSecurityGroup { .. } => "bind ports to security groups (admin only)"@,
    }
}

/// What a call asks of the fabric.
pub open spec fn proposal(call: OrchCallView) -> TopoRequestView {
    match call {
        OrchCallView::AddHost(m) => TopoRequestView::AddHost(host_asked(m)),
        OrchCallView::AddNetwork(m) => TopoRequestView::AddNetwork(network_asked(m)),
        OrchCallView::CreatePort { network, host, tap, ip, policy } => TopoRequestView::CreatePort {
            vni: network,
            host,
            tap,
            ip: chosen_text(ip),
            policy,
        },
        OrchCallView::RemovePort { id } => TopoRequestView::RemovePort { id },
        OrchCallView::MigratePort { id, host, tap } =>
            TopoRequestView::MigratePort { id, host, tap },
        OrchCallView::RemoveHost { id } => TopoRequestView::RemoveHost { id },
        OrchCallView::RemoveNetwork { vni } => TopoRequestView::RemoveNetwork { vni },
        OrchCallView::AddSecurityGroup(m) => TopoRequestView::AddSecurityGroup(group_asked(m)),
        OrchCallView::RemoveSecurityGroup { name } => TopoRequestView::RemoveSecurityGroup { name },
        OrchCallView::BindPortSecurityGroup { port_id, group } => {
            TopoRequestView::SetPortSecurityGroup { port_id, group }
        },
    }
}

/// What a call leads to: a proposal where the policy permits it, else a denial.
pub open spec fn accepted(authz: AuthzView, caller: CallerView, call: OrchCallView) -> Result<
    TopoRequestView,
    StatusView,
> {
    if may_call(authz, caller, call) {
        Ok(proposal(call))
    } else {
        Err(denied(forbidden_act(call)))
    }
}

fn accept_if(
    allowed: bool,
    act: &str,
    request: TopoRequest,
) -> (r: Result<TopoRequest, Status>)
    ensures
        status_view(r) == (if allowed {
            Ok(request@)
        } else {
            Err(denied(act@))
        }),
{
    if allowed {
        Ok(request)
    } else {
        Err(deny(act))
    }
}

/// Accepts a call, as [`accepted`] says.
pub fn accept(authz: &Authz, caller: &Caller, call: &OrchCall) -> (r: Result<TopoRequest, Status>)
    ensures
        status_view(r) == accepted(authz@, caller@, call@),
{
    match call {
        OrchCall::AddHost(m) => {
            if !authz.allow_host(caller, m.id.as_str()) {
                return Err(deny_named("add/update host ", m.id.as_str()));
            }
            Ok(TopoRequest::AddHost(raft_host_spec(m)))
        },
        OrchCall::AddNetwork(m) => accept_if(
            authz.allow_admin(caller),
            "define networks (admin only)",
            TopoRequest::AddNetwork(raft_network_spec(m)),
        ),
        OrchCall::CreatePort { network, host, tap, ip, policy } => {
            if !authz.allow_host(caller, host.as_str()) {
                return Err(deny_named("create ports on host ", host.as_str()));
            }
            Ok(
                TopoRequest::CreatePort {
                    vni: *network,
                    host: host.clone(),
                    tap: tap.clone(),
                    ip: choose_text(ip.as_str()),
                    policy: *policy,
                },
            )
        },
        OrchCall::RemovePort { id } => accept_if(
            authz.allow_admin(caller),
            "remove ports (admin only)",
            TopoRequest::RemovePort { id: id.clone() },
        ),
        OrchCall::MigratePort { id, host, tap } => accept_if(
            authz.allow_admin(caller),
            "migrate ports (admin only)",
            TopoRequest::MigratePort { id: id.clone(), host: host.clone(), tap: tap.clone() },
        ),
        OrchCall::RemoveHost { id } => {
            if !authz.allow_host(caller, id.as_str()) {
                return Err(deny_named("remove host ", id.as_str()));
            }
            Ok(TopoRequest::RemoveHost { id: id.clone() })
        },
        OrchCall::RemoveNetwork { vni } => accept_if(
            authz.allow_admin(caller),
            "remove networks (admin only)",
            TopoRequest::RemoveNetwork { vni: *vni },
        ),
        OrchCall::AddSecurityGroup(m) => accept_if(
            authz.allow_admin(caller),
            "define security groups (admin only)",
            TopoRequest::AddSecurityGroup(raft_security_group_spec(m)),
        ),
        OrchCall::RemoveSecurityGroup { name } => accept_if(
            authz.allow_admin(caller),
            "remove security groups (admin only)",
            TopoRequest::RemoveSecurityGroup { name: name.clone() },
        ),
        OrchCall::BindPortSecurityGroup { port_id, group } => accept_if(
            authz.allow_admin(caller),
            "bind ports to security groups (admin only)",
            TopoRequest::SetPortSecurityGroup { port_id: port_id.clone(), group: clone_opt(group) },
        ),
    }
}

// ---------------------------------------------------------------------------
// Where a proposal goes
// ---------------------------------------------------------------------------

/// Where a proposal goes.
#[derive(Debug, PartialEq, Eq)]
pub enum Route {
    /// The only controller applies it to its own fabric.
    Apply,
    /// The leader of the cluster replicates it.
    Replicate,
    /// Another member leads the cluster.
    Redirect(Status),
}

/// Whether the member `id` is the one that it takes for the leader.
pub fn is_leader(id: NodeId, leader: Option<NodeId>) -> (r: bool)
    ensures
        r == (leader == Some(id)),
{
    match leader {
        Some(l) => l == id,
        None => false,
    }
}

/// The leader as a redirection names it.
pub open spec fn leader_text(leader: Option<NodeId>) -> Seq<char> {
    match leader {
        Some(l) => decimal(l as nat),
        None => "None"@,
    }
}

/// That a write has to go to the leader.
pub open spec fn redirection(leader: Option<NodeId>) -> StatusView {
    StatusView {
        code: Code::FailedPrecondition,
        message: "not the leader; current leader is node "@ + leader_text(leader)
            + " — send writes there"@,
    }
}

/// The refusal of a write at a member that does not lead its cluster. Without a cluster (`member` is
/// none) there is none.
pub open spec fn misdirected(member: Option<NodeId>, leader: Option<NodeId>) -> Option<StatusView> {
    if member is Some && leader != member {
        Some(redirection(leader))
    } else {
        None
    }
}

/// Routes a proposal: without a cluster (`member` is none) it is applied here, the leader
/// replicates it, and every other member redirects to the leader it knows.
pub fn route(member: Option<NodeId>, leader: Option<NodeId>) -> (r: Route)
    ensures
        match misdirected(member, leader) {
            Some(refusal) => r matches Route::Redirect(s) && s@ == refusal,
            None => r == if member is None {
                Route::Apply
            } else {
                Route::Replicate
            },
        },
{
    match member {
        None => Route::Apply,
        Some(id) => {
            if is_leader(id, leader) {
                return Route::Replicate;
            }
            let mut message = String::from_str("not the leader; current leader is node ");
            match leader {
                Some(l) => {
                    push_decimal(&mut message, l);
                },
                None => {
                    message.append("None");
                },
            }
            message.append(" — send writes there");
            Route::Redirect(Status { code: Code::FailedPrecondition, message })
        },
    }
}

// ---------------------------------------------------------------------------
// How a call is answered
// ---------------------------------------------------------------------------

/// The answer to a call.
#[derive(Debug, PartialEq, Eq)]
pub enum OrchReply {
    /// Whether the change was made.
    Ack { ok: bool },
    /// The port that was created or changed.
    Port(PortInfo),
}

/// What an [`OrchReply`] holds.
pub enum OrchReplyView {
    Ack { ok: bool },
    Port(PortInfoView),
}

impl View for OrchReply {
    type V = OrchReplyView;

    open spec fn view(&self) -> OrchReplyView {
        match self {
            OrchReply::Ack { ok } => OrchReplyView::Ack { ok: *ok },
            OrchReply::Port(p) => OrchReplyView::Port(p@),
        }
    }
}

/// The answer to a call for a port.
pub open spec fn port_reply(r: TopoResponseView, missing: Seq<char>) -> Result<
    OrchReplyView,
    StatusView,
> {
    if !r.ok {
        Err(StatusView { code: Code::InvalidArgument, message: text_or_empty(r.error) })
    } else {
        match r.port {
            Some(p) => Ok(OrchReplyView::Port(record_shown(p))),
            None => Err(StatusView { code: Code::Internal, message: missing }),
        }
    }
}

/// The answer to a call that succeeds or fails with `code`.
pub open spec fn plain_reply(r: TopoResponseView, code: Code) -> Result<OrchReplyView, StatusView> {
    if r.ok {
        Ok(OrchReplyView::Ack { ok: true })
    } else {
        Err(StatusView { code, message: text_or_empty(r.error) })
    }
}

/// How a call is answered once the fabric has responded. A definition that the fabric turns down
/// had an invalid argument; a removal that it turns down met a failed precondition. The removal of
/// a port that is not there is no failure.
pub open spec fn reply_to(call: OrchCallView, r: TopoResponseView) -> Result<
    OrchReplyView,
    StatusView,
> {
    match call {
        OrchCallView::AddHost(_) => plain_reply(r, Code::InvalidArgument),
        OrchCallView::AddNetwork(_) => plain_reply(r, Code::InvalidArgument),
        OrchCallView::AddSecurityGroup(_) => plain_reply(r, Code::InvalidArgument),
        OrchCallView::CreatePort { .. } => port_reply(r, "create_port returned no port"@),
        OrchCallView::MigratePort { .. } => port_reply(r, "migrate_port returned no port"@),
        OrchCallView::BindPortSecurityGroup { .. } => port_reply(
            r,
            "bind_port_security_group returned no port"@,
        ),
        OrchCallView::RemovePort { .. } => Ok(OrchReplyView::Ack { ok: r.ok }),
        OrchCallView::RemoveHost { .. } => plain_reply(r, Code::FailedPrecondition),
        OrchCallView::RemoveNetwork { .. } => plain_reply(r, Code::FailedPrecondition),
        OrchCallView::RemoveSecurityGroup { .. } => plain_reply(r, Code::FailedPrecondition),
    }
}

fn error_text(e: Option<String>) -> (r: String)
    ensures
        r@ == text_or_empty(opt_view(e)),
{
    match e {
        Some(s) => s,
        None => String::new(),
    }
}

fn answer_port(response: TopoResponse, missing: &str) -> (r: Result<OrchReply, Status>)
    ensures
        status_view(r) == port_reply(response@, missing@),
{
    if !response.ok {
        return Err(Status { code: Code::InvalidArgument, message: error_text(response.error) });
    }
    match response.port {
        Some(p) => Ok(OrchReply::Port(port_record_to_info(p))),
        None => Err(Status { code: Code::Internal, message: String::from_str(missing) }),
    }
}

fn answer_plain(response: TopoResponse, code: Code) -> (r: Result<OrchReply, Status>)
    ensures
        status_view(r) == plain_reply(response@, code),
{
    if response.ok {
        Ok(OrchReply::Ack { ok: true })
    } else {
        Err(Status { code, message: error_text(response.error) })
    }
}

/// Answers a call, as [`reply_to`] says.
pub fn answer(call: &OrchCall, response: TopoResponse) -> (r: Result<OrchReply, Status>)
    ensures
        status_view(r) == reply_to(call@, response@),
{
    match call {
        OrchCall::AddHost(_) => answer_plain(response, Code::InvalidArgument),
        OrchCall::AddNetwork(_) => answer_plain(response, Code::InvalidArgument),
        OrchCall::AddSecurityGroup(_) => answer_plain(response, Code::InvalidArgument),
        OrchCall::CreatePort { .. } => answer_port(response, "create_port returned no port"),
        OrchCall::MigratePort { .. } => answer_port(response, "migrate_port returned no port"),
        OrchCall::BindPortSecurityGroup { .. } => answer_port(
            response,
            "bind_port_security_group returned no port",
        ),
        OrchCall::RemovePort { .. } => Ok(OrchReply::Ack { ok: response.ok }),
        OrchCall::RemoveHost { .. } => answer_plain(response, Code::FailedPrecondition),
        OrchCall::RemoveNetwork { .. } => answer_plain(response, Code::FailedPrecondition),
        OrchCall::RemoveSecurityGroup { .. } => answer_plain(response, Code::FailedPrecondition),
    }
}

// ---------------------------------------------------------------------------
// Laws
// ---------------------------------------------------------------------------

/// A denied call proposes nothing, and every other call proposes exactly what it asks for.
pub proof fn denied_call_proposes_nothing(authz: AuthzView, caller: CallerView, call: OrchCallView)
    ensures
        !may_call(authz, caller, call) ==> (accepted(authz, caller, call) matches Err(s) && s.code
            == Code::PermissionDenied),
        may_call(authz, caller, call) ==> accepted(authz, caller, call) == Ok::<
            TopoRequestView,
            StatusView,
        >(proposal(call)),
{
}

/// A node that is no administrator may register or retire itself and create ports on itself, and
/// may call nothing else.
pub proof fn node_calls_are_confined(authz: AuthzView, node: Seq<char>, call: OrchCallView)
    requires
        authz.enforced,
        !authz.admins.contains(node),
    ensures
        may_call(authz, CallerView::Cert(node), call) == (host_of_call(call) == Some(node)),
{
}

/// A call succeeds exactly where the fabric made the change, but for the removal of a port, which
/// tells whether there was one.
pub proof fn success_follows_the_fabric(call: OrchCallView, r: TopoResponseView)
    requires
        !(call is RemovePort),
        r.ok ==> r.port is Some,
    ensures
        reply_to(call, r) is Ok <==> r.ok,
{
}

/// Whether the call is one that a node may make for the host of its own name: to register or retire
/// it, or to create a port on it.
pub open spec fn concerns_host(call: OrchCallView, host: Seq<char>) -> bool {
    match call {
        OrchCallView::AddHost(m) => m.id == host,
        OrchCallView::CreatePort { host: h, .. } => h == host,
        OrchCallView::RemoveHost { id } => id == host,
        _ => false,
    }
}

/// Who may call what under an enforced policy: an administrator everything, a node what concerns the
/// host of its name, and nobody else anything. Without enforcement everybody may call everything.
pub proof fn callers_are_known(authz: AuthzView, caller: CallerView, call: OrchCallView)
    ensures
        accepted(authz, caller, call) is Ok <==> !authz.enforced || (caller matches CallerView::Cert(
            n,
        ) && (authz.admins.contains(n) || concerns_host(call, n))),
        accepted(authz, caller, call) matches Err(s) ==> s.code == Code::PermissionDenied,
{
}

/// An accepted call asks the fabric for what it says, with its own arguments. An empty address asks
/// for none in particular.
pub proof fn accepted_call_is_carried(authz: AuthzView, caller: CallerView, call: OrchCallView)
    ensures
        accepted(authz, caller, call) matches Ok(req) ==> match call {
            OrchCallView::AddHost(m) => req matches TopoRequestView::AddHost(s) && s == host_asked(
                m,
            ),
            OrchCallView::AddNetwork(m) => req matches TopoRequestView::AddNetwork(s) && s
                == network_asked(m),
            OrchCallView::CreatePort { network, host, tap, ip, policy } => {
                req matches TopoRequestView::CreatePort { vni, host: h, tap: t, ip: a, policy: p }
                    && vni == network && h == host && t == tap && p == policy && (a is None
                    <==> ip.len() == 0) && (a matches Some(x) ==> x == ip)
            },
            OrchCallView::RemovePort { id } => req matches TopoRequestView::RemovePort { id: x }
                && x == id,
            OrchCallView::MigratePort { id, host, tap } => {
                req matches TopoRequestView::MigratePort { id: x, host: h, tap: t } && x == id && h
                    == host && t == tap
            },
            OrchCallView::RemoveHost { id } => req matches TopoRequestView::RemoveHost { id: x }
                && x == id,
            OrchCallView::RemoveNetwork { vni } => {
                req matches TopoRequestView::RemoveNetwork { vni: v } && v == vni
            },
            OrchCallView::AddSecurityGroup(m) => {
                req matches TopoRequestView::AddSecurityGroup(s) && s == group_asked(m)
            },
            OrchCallView::RemoveSecurityGroup { name } => {
                req matches TopoRequestView::RemoveSecurityGroup { name: n } && n == name
            },
            OrchCallView::BindPortSecurityGroup { port_id, group } => {
                req matches TopoRequestView::SetPortSecurityGroup { port_id: p, group: g } && p
                    == port_id && g == group
            },
        },
{
}

/// A write is turned away exactly where there is a cluster and this member does not lead it, with a
/// failed precondition.
pub proof fn only_the_leader_writes(member: Option<NodeId>, leader: Option<NodeId>)
    ensures
        misdirected(member, leader) is Some <==> (member matches Some(m) && !(leader matches Some(
            l,
        ) && l == m)),
        misdirected(member, leader) matches Some(s) ==> s.code == Code::FailedPrecondition,
{
}

/// How a call is answered: with what the fabric responded. A refusal carries the fabric's reason, as
/// an invalid argument for what was to be made or changed and as a failed precondition for what was to
/// be removed.
pub proof fn answer_follows_the_response(call: OrchCallView, r: TopoResponseView)
    ensures
        match call {
            OrchCallView::RemovePort { .. } => reply_to(call, r) matches Ok(
                OrchReplyView::Ack { ok },
            ) && ok == r.ok,
            OrchCallView::CreatePort { .. } | OrchCallView::MigratePort { .. } |
            OrchCallView::BindPortSecurityGroup { .. } => {
                &&& r.ok && r.port is Some ==> (reply_to(call, r) matches Ok(
                    OrchReplyView::Port(p),
                ) && p.id == r.port->0.id && p.vni == r.port->0.vni && p.host == r.port->0.host
                    && p.ip == r.port->0.ip && p.mac == r.port->0.mac && p.tap == r.port->0.tap)
                &&& r.ok && r.port is None ==> (reply_to(call, r) matches Err(s) && s.code
                    == Code::Internal)
                &&& !r.ok ==> (reply_to(call, r) matches Err(s) && s.code == Code::InvalidArgument
                    && (r.error matches Some(e) ==> s.message == e))
            },
            OrchCallView::RemoveHost { .. } | OrchCallView::RemoveNetwork { .. } |
            OrchCallView::RemoveSecurityGroup { .. } => {
                &&& r.ok ==> (reply_to(call, r) matches Ok(OrchReplyView::Ack { ok }) && ok)
                &&& !r.ok ==> (reply_to(call, r) matches Err(s) && s.code
                    == Code::FailedPrecondition && (r.error matches Some(e) ==> s.message == e))
            },
            _ => {
                &&& r.ok ==> (reply_to(call, r) matches Ok(OrchReplyView::Ack { ok }) && ok)
                &&& !r.ok ==> (reply_to(call, r) matches Err(s) && s.code == Code::InvalidArgument
                    && (r.error matches Some(e) ==> s.message == e))
            },
        },
{
}

/// What a caller without leave is told, and where one that reached another member is sent.
pub proof fn refusals_say_what_and_where(
    call: OrchCallView,
    what: Seq<char>,
    member: Option<NodeId>,
    leader: Option<NodeId>,
)
    ensures
        denied(what).code == Code::PermissionDenied,
        denied(what).message == "not authorized to "@ + what,
        call matches OrchCallView::AddHost(m) ==> forbidden_act(call) == "add/update host "@
            + debug_text(m.id),
        call matches OrchCallView::RemoveHost { id } ==> forbidden_act(call) == "remove host "@
            + debug_text(id),
        call matches OrchCallView::CreatePort { host, .. } ==> forbidden_act(call)
            == "create ports on host "@ + debug_text(host),
        call is AddNetwork ==> forbidden_act(call) == "define networks (admin only)"@,
        call is RemoveNetwork ==> forbidden_act(call) == "remove networks (admin only)"@,
        call is RemovePort ==> forbidden_act(call) == "remove ports (admin only)"@,
        call is MigratePort ==> forbidden_act(call) == "migrate ports (admin only)"@,
        call is AddSecurityGroup ==> forbidden_act(call) == "define security groups (admin only)"@,
        call is RemoveSecurityGroup ==> forbidden_act(call)
            == "remove security groups (admin only)"@,
        call is BindPortSecurityGroup ==> forbidden_act(call)
            == "bind ports to security groups (admin only)"@,
        misdirected(member, leader) matches Some(s) ==> {
            &&& leader matches Some(l) ==> s.message == "not the leader; current leader is node "@
                + decimal(l as nat) + " — send writes there"@
            &&& leader is None ==> s.message == "not the leader; current leader is node "@
                + "None"@ + " — send writes there"@
        },
{
}

/// A change of a port that succeeds without a port is an internal failure that names the change.
pub proof fn missing_port_is_told(call: OrchCallView, r: TopoResponseView)
    requires
        r.ok,
        r.port is None,
    ensures
        call is CreatePort ==> reply_to(call, r) == Err::<OrchReplyView, StatusView>(
            StatusView { code: Code::Internal, message: "create_port returned no port"@ },
        ),
        call is MigratePort ==> reply_to(call, r) == Err::<OrchReplyView, StatusView>(
            StatusView { code: Code::Internal, message: "migrate_port returned no port"@ },
        ),
        call is BindPortSecurityGroup ==> reply_to(call, r) == Err::<OrchReplyView, StatusView>(
            StatusView {
                code: Code::Internal,
                message: "bind_port_security_group returned no port"@,
            },
        ),
{
}

} // verus!
