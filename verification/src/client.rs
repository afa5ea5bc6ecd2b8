//! The commands of the administrative client: what each asks of the controller, and what it prints
//! when the controller has answered.

use vstd::prelude::*;

use crate::admin::{reply_to, OrchCall, OrchCallView, OrchReply, OrchReplyView};
use crate::config::EncapName;
use crate::controller::{NodeSummary, NodeSummaryView};
use crate::messages::{
    or_empty, text_or_empty, HostMessage, HostMessageView, NetworkMessage, NetworkMessageView,
    PortInfo, PortInfoView, SecurityGroupInfo, SecurityGroupInfoView, WireAction,
};
use crate::startup::{
    group_from_args, security_group_message, text_result, GroupArgs, GroupArgsView,
};
use crate::store::TopoResponseView;
use crate::text::{clone_opt, debug_str, debug_text, decimal, opt_view, push_decimal, same, views};

verus! {

/// A command that orchestrates the fabric.
#[derive(Debug)]
pub enum OrchAction {
    /// Register a host.
    AddHost { id: String, vtep: String, iface: String, mac: String, encap: String },
    /// Define a network.
    AddNetwork { vni: u32, name: String, subnet: String, drop_icmp: bool },
    /// Create a port; without an address the next free one is taken.
    CreatePort { network: u32, host: String, tap: String, ip: Option<String>, policy: Option<u32> },
    /// Remove a port.
    RemovePort { id: String },
    /// Move a port to another host.
    MigratePort { id: String, host: String, tap: String },
    /// List the ports.
    ListPorts,
    /// Register a security group.
    AddSecurityGroup(GroupArgs),
    /// Remove a security group.
    RemoveSecurityGroup { name: String },
    /// List the security groups.
    ListSecurityGroups,
    /// Bind a port to a security group, or clear the binding.
    BindPort { port: String, group: Option<String>, clear: bool },
}

/// What an [`OrchAction`] holds.
pub enum OrchActionView {
    AddHost { id: Seq<char>, vtep: Seq<char>, iface: Seq<char>, mac: Seq<char>, encap: Seq<char> },
    AddNetwork { vni: u32, name: Seq<char>, subnet: Seq<char>, drop_icmp: bool },
    CreatePort {
        network: u32,
        host: Seq<char>,
        tap: Seq<char>,
        ip: Option<Seq<char>>,
        policy: Option<u32>,
    },
    RemovePort { id: Seq<char> },
    MigratePort { id: Seq<char>, host: Seq<char>, tap: Seq<char> },
    ListPorts,
    AddSecurityGroup(GroupArgsView),
    RemoveSecurityGroup { name: Seq<char> },
    ListSecurityGroups,
    BindPort { port: Seq<char>, group: Option<Seq<char>>, clear: bool },
}

impl View for OrchAction {
    type V = OrchActionView;

    open spec fn view(&self) -> OrchActionView {
        match self {
            OrchAction::AddHost { id, vtep, iface, mac, encap } => OrchActionView::AddHost {
                id: id@,
                vtep: vtep@,
                iface: iface@,
                mac: mac@,
                encap: encap@,
            },
            OrchAction::AddNetwork { vni, name, subnet, drop_icmp } => OrchActionView::AddNetwork {
                vni: *vni,
                name: name@,
                subnet: subnet@,
                drop_icmp: *drop_icmp,
            },
            OrchAction::CreatePort { network, host, tap, ip, policy } =>
                OrchActionView::CreatePort {
                network: *network,
                host: host@,
                tap: tap@,
                ip: opt_view(*ip),
                policy: *policy,
            },
            OrchAction::RemovePort { id } => OrchActionView::RemovePort { id: id@ },
            OrchAction::MigratePort { id, host, tap } => OrchActionView::MigratePort {
                id: id@,
                host: host@,
                tap: tap@,
            },
            OrchAction::ListPorts => OrchActionView::ListPorts,
            OrchAction::AddSecurityGroup(a) => OrchActionView::AddSecurityGroup(a@),
            OrchAction::RemoveSecurityGroup { name } => OrchActionView::RemoveSecurityGroup {
                name: name@,
            },
            OrchAction::ListSecurityGroups => OrchActionView::ListSecurityGroups,
            OrchAction::BindPort { port, group, clear } => OrchActionView::BindPort {
                port: port@,
                group: opt_view(*group),
                clear: *clear,
            },
        }
    }
}

/// What a command sends to the controller.
#[derive(Debug, PartialEq, Eq)]
pub enum Ask {
    /// A call that changes the fabric.
    Call(OrchCall),
    /// For the list of ports.
    Ports,
    /// For the list of security groups.
    SecurityGroups,
}

/// What an [`Ask`] holds.
pub enum AskView {
    Call(OrchCallView),
    Ports,
    SecurityGroups,
}

impl View for Ask {
    type V = AskView;

    open spec fn view(&self) -> AskView {
        match self {
            Ask::Call(c) => AskView::Call(c@),
            Ask::Ports => AskView::Ports,
            Ask::SecurityGroups => AskView::SecurityGroups,
        }
    }
}

/// The encapsulation that a word names.
pub open spec fn encap_of(s: Seq<char>) -> Result<EncapName, Seq<char>> {
    if s == "geneve"@ {
        Ok(EncapName::Geneve)
    } else if s == "vxlan"@ {
        Ok(EncapName::Vxlan)
    } else {
        Err("unknown encap "@ + debug_text(s) + " (use vxlan or geneve)"@)
    }
}

/// The group that a port is to be bound to: none where the binding is to be cleared.
pub open spec fn group_bound(group: Option<Seq<char>>, clear: bool) -> Option<Seq<char>> {
    if clear {
        None
    } else {
        group
    }
}

/// The group to bind a port to, as [`group_bound`] says.
pub fn group_to_bind(group: &Option<String>, clear: bool) -> (r: Option<String>)
    ensures
        opt_view(r) == group_bound(opt_view(*group), clear),
{
    if clear {
        None
    } else {
        clone_opt(group)
    }
}

/// What a command asks for, or what is wrong with it.
pub open spec fn asks(a: OrchActionView) -> Result<AskView, Seq<char>> {
    match a {
        OrchActionView::AddHost { id, vtep, iface, mac, encap } => match encap_of(encap) {
            Err(e) => Err(e),
            Ok(encap) => Ok(
                AskView::Call(
                    OrchCallView::AddHost(
                        HostMessageView {
                            id,
                            vtep,
                            underlay_iface: iface,
                            underlay_mac: mac,
                            encap,
                            udp_port: 0,
                            underlay_mtu: 0,
                        },
                    ),
                ),
            ),
        },
        OrchActionView::AddNetwork { vni, name, subnet, drop_icmp } => Ok(
            AskView::Call(
                OrchCallView::AddNetwork(
                    NetworkMessageView {
                        vni,
                        name,
                        subnet,
                        default_action: WireAction::Pass,
                        drop_icmp,
                    },
                ),
            ),
        ),
        OrchActionView::CreatePort { network, host, tap, ip, policy } => Ok(
            AskView::Call(
                OrchCallView::CreatePort { network, host, tap, ip: text_or_empty(ip), policy },
            ),
        ),
        OrchActionView::RemovePort { id } => Ok(AskView::Call(OrchCallView::RemovePort { id })),
        OrchActionView::MigratePort { id, host, tap } => Ok(
            AskView::Call(OrchCallView::MigratePort { id, host, tap }),
        ),
        OrchActionView::ListPorts => Ok(AskView::Ports),
        OrchActionView::AddSecurityGroup(g) => match group_from_args(g) {
            Err(e) => Err(e),
            Ok(m) => Ok(AskView::Call(OrchCallView::AddSecurityGroup(m))),
        },
        OrchActionView::RemoveSecurityGroup { name } => Ok(
            AskView::Call(OrchCallView::RemoveSecurityGroup { name }),
        ),
        OrchActionView::ListSecurityGroups => Ok(AskView::SecurityGroups),
        OrchActionView::BindPort { port, group, clear } => Ok(
            AskView::Call(
                OrchCallView::BindPortSecurityGroup {
                    port_id: port,
                    group: group_bound(group, clear),
                },
            ),
        ),
    }
}

fn read_encap(s: &str) -> (r: Result<EncapName, String>)
    ensures
        match r {
            Ok(e) => encap_of(s@) == Ok::<EncapName, Seq<char>>(e),
            Err(e) => encap_of(s@) == Err::<EncapName, Seq<char>>(e@),
        },
{
    if same(s, "geneve") {
        Ok(EncapName::Geneve)
    } else if same(s, "vxlan") {
        Ok(EncapName::Vxlan)
    } else {
        let mut e = String::from_str("unknown encap ");
        e.append(debug_str(s).as_str());
        e.append(" (use vxlan or geneve)");
        Err(e)
    }
}

/// Turns a command into what it asks for, as [`asks`] says.
pub fn orch(action: &OrchAction) -> (r: Result<Ask, String>)
    ensures
        text_result(r) == asks(action@),
{
    match action {
        OrchAction::AddHost { id, vtep, iface, mac, encap } => {
            let encap = match read_encap(encap.as_str()) {
                Ok(e) => e,
                Err(e) => {
                    return Err(e);
                },
            };
            Ok(
                Ask::Call(
                    OrchCall::AddHost(
                        HostMessage {
                            id: id.clone(),
                            vtep: vtep.clone(),
                            underlay_iface: iface.clone(),
                            underlay_mac: mac.clone(),
                            encap,
                            udp_port: 0,
                            underlay_mtu: 0,
                        },
                    ),
                ),
            )
        },
        OrchAction::AddNetwork { vni, name, subnet, drop_icmp } => Ok(
            Ask::Call(
                OrchCall::AddNetwork(
                    NetworkMessage {
                        vni: *vni,
                        name: name.clone(),
                        subnet: subnet.clone(),
                        default_action: WireAction::Pass,
                        drop_icmp: *drop_icmp,
                    },
                ),
            ),
        ),
        OrchAction::CreatePort { network, host, tap, ip, policy } => Ok(
            Ask::Call(
                OrchCall::CreatePort {
                    network: *network,
                    host: host.clone(),
                    tap: tap.clone(),
                    ip: or_empty(ip),
                    policy: *policy,
                },
            ),
        ),
        OrchAction::RemovePort { id } => Ok(Ask::Call(OrchCall::RemovePort { id: id.clone() })),
        OrchAction::MigratePort { id, host, tap } => Ok(
            Ask::Call(
                OrchCall::MigratePort { id: id.clone(), host: host.clone(), tap: tap.clone() },
            ),
        ),
        OrchAction::ListPorts => Ok(Ask::Ports),
        OrchAction::AddSecurityGroup(g) => match security_group_message(g) {
            Ok(m) => Ok(Ask::Call(OrchCall::AddSecurityGroup(m))),
            Err(e) => Err(e),
        },
        OrchAction::RemoveSecurityGroup { name } => Ok(
            Ask::Call(OrchCall::RemoveSecurityGroup { name: name.clone() }),
        ),
        OrchAction::ListSecurityGroups => Ok(Ask::SecurityGroups),
        OrchAction::BindPort { port, group, clear } => Ok(
            Ask::Call(
                OrchCall::BindPortSecurityGroup {
                    port_id: port.clone(),
                    group: group_to_bind(group, *clear),
                },
            ),
        ),
    }
}

// ---------------------------------------------------------------------------
// What is printed after a change
// ---------------------------------------------------------------------------

/// Whether a command changes the fabric, and the answer is of the kind that it asks for.
pub open spec fn fits(a: OrchActionView, reply: OrchReplyView) -> bool {
    match a {
        OrchActionView::ListPorts => false,
        OrchActionView::ListSecurityGroups => false,
        OrchActionView::CreatePort { .. } => reply is Port,
        OrchActionView::MigratePort { .. } => reply is Port,
        OrchActionView::BindPort { .. } => reply is Port,
        _ => reply is Ack,
    }
}

/// Where a port stands, after what was done to it.
pub open spec fn port_line(done: Seq<char>, p: PortInfoView, whereto: Seq<char>) -> Seq<char> {
    done + p.id + " : "@ + p.ip + " ("@ + p.mac + whereto + p.host + " via "@ + p.tap
}

/// Whether a removal met what it was to remove.
pub open spec fn removal_line(ok: bool, kind: Seq<char>, name: Seq<char>) -> Seq<char> {
    (if ok {
        "removed"@
    } else {
        "no such"@
    }) + kind + debug_text(name)
}

/// What is printed of a change.
pub open spec fn report_text(a: OrchActionView, reply: OrchReplyView) -> Seq<char>
    recommends
        fits(a, reply),
{
    match a {
        OrchActionView::AddHost { id, .. } => "added host "@ + debug_text(id),
        OrchActionView::AddNetwork { vni, .. } => "added network vni "@ + decimal(vni as nat),
        OrchActionView::CreatePort { .. } => port_line("created port "@, reply->Port_0, ") on "@),
        OrchActionView::RemovePort { id } => removal_line(reply->ok, " port "@, id),
        OrchActionView::MigratePort { .. } => port_line(
            "migrated port "@,
            reply->Port_0,
            ") now on "@,
        ),
        OrchActionView::AddSecurityGroup(g) => "added security group "@ + debug_text(g.name),
        OrchActionView::RemoveSecurityGroup { name } => removal_line(
            reply->ok,
            " security group "@,
            name,
        ),
        OrchActionView::BindPort { group, clear, .. } => match group_bound(group, clear) {
            Some(g) => "bound port "@ + debug_text(reply->Port_0.id) + " to security group "@
                + debug_text(g),
            None => "cleared security group on port "@ + debug_text(reply->Port_0.id),
        },
        _ => Seq::empty(),
    }
}

fn quoted(what: &str, name: &str) -> (r: String)
    ensures
        r@ == what@ + debug_text(name@),
{
    let mut s = String::from_str(what);
    s.append(debug_str(name).as_str());
    s
}

fn tell_port(done: &str, p: &PortInfo, whereto: &str) -> (r: String)
    ensures
        r@ == port_line(done@, p@, whereto@),
{
    let mut s = String::from_str(done);
    s.append(p.id.as_str());
    s.append(" : ");
    s.append(p.ip.as_str());
    s.append(" (");
    s.append(p.mac.as_str());
    s.append(whereto);
    s.append(p.host.as_str());
    s.append(" via ");
    s.append(p.tap.as_str());
    s
}

fn tell_removal(ok: bool, kind: &str, name: &str) -> (r: String)
    ensures
        r@ == removal_line(ok, kind@, name@),
{
    let mut s = if ok {
        String::from_str("removed")
    } else {
        String::from_str("no such")
    };
    s.append(kind);
    s.append(debug_str(name).as_str());
    s
}

/// Writes what is printed of a change, as [`report_text`] says.
pub fn report(action: &OrchAction, reply: &OrchReply) -> (r: String)
    requires
        fits(action@, reply@),
    ensures
        r@ == report_text(action@, reply@),
{
    match reply {
        OrchReply::Port(p) => match action {
            OrchAction::CreatePort { .. } => tell_port("created port ", p, ") on "),
            OrchAction::MigratePort { .. } => tell_port("migrated port ", p, ") now on "),
            OrchAction::BindPort { group, clear, .. } => match group_to_bind(group, *clear) {
                Some(g) => {
                    let mut s = quoted("bound port ", p.id.as_str());
                    s.append(" to security group ");
                    s.append(debug_str(g.as_str()).as_str());
                    s
                },
                None => quoted("cleared security group on port ", p.id.as_str()),
            },
            _ => String::new(),
        },
        OrchReply::Ack { ok } => match action {
            OrchAction::AddHost { id, .. } => quoted("added host ", id.as_str()),
            OrchAction::AddNetwork { vni, .. } => {
                let mut s = String::from_str("added network vni ");
                push_decimal(&mut s, *vni as u64);
                s
            },
            OrchAction::RemovePort { id } => tell_removal(*ok, " port ", id.as_str()),
            OrchAction::AddSecurityGroup(g) => quoted("added security group ", g.name.as_str()),
            OrchAction::RemoveSecurityGroup { name } => tell_removal(
                *ok,
                " security group ",
                name.as_str(),
            ),
            _ => String::new(),
        },
    }
}

// ---------------------------------------------------------------------------
// Tables
// ---------------------------------------------------------------------------

/// `n` spaces.
pub open spec fn spaces(n: int) -> Seq<char> {
    if n <= 0 {
        Seq::empty()
    } else {
        Seq::new(n as nat, |i: int| ' ')
    }
}

/// A text at the left of a column of `width` characters; a longer one is not cut.
pub open spec fn at_left(s: Seq<char>, width: nat) -> Seq<char> {
    s + spaces(width - s.len())
}

/// A text at the right of a column of `width` characters; a longer one is not cut.
pub open spec fn at_right(s: Seq<char>, width: nat) -> Seq<char> {
    spaces(width - s.len()) + s
}

fn push_spaces(s: &mut String, taken: usize, width: usize)
    ensures
        final(s)@ == old(s)@ + spaces(width - taken),
{
    let ghost start = s@;
    let mut i: usize = taken;
    assert(start + spaces(0) =~= start);
    while i < width
        invariant
            taken <= i,
            taken <= width ==> i <= width,
            taken > width ==> i == taken,
            s@ == start + spaces(i - taken),
        decreases width - i,
    {
        s.push(' ');
        i = i + 1;
        assert(s@ =~= start + spaces(i - taken));
    }
    assert(s@ =~= start + spaces(width - taken));
}

fn push_left(s: &mut String, text: &str, width: usize)
    ensures
        final(s)@ == old(s)@ + at_left(text@, width as nat),
{
    let ghost start = s@;
    s.append(text);
    push_spaces(s, text.unicode_len(), width);
    assert(s@ =~= start + at_left(text@, width as nat));
}

fn push_right(s: &mut String, text: &str, width: usize)
    ensures
        final(s)@ == old(s)@ + at_right(text@, width as nat),
{
    let ghost start = s@;
    push_spaces(s, text.unicode_len(), width);
    s.append(text);
    assert(s@ =~= start + at_right(text@, width as nat));
}

fn number_text(n: u64) -> (r: String)
    ensures
        r@ == decimal(n as nat),
{
    let mut s = String::new();
    push_decimal(&mut s, n);
    assert(s@ =~= decimal(n as nat));
    s
}

/// A row of the table of ports.
pub open spec fn port_row(
    id: Seq<char>,
    vni: Seq<char>,
    ip: Seq<char>,
    mac: Seq<char>,
    tap: Seq<char>,
    host: Seq<char>,
) -> Seq<char> {
    at_left(id, 22) + " "@ + at_right(vni, 6) + "  "@ + at_left(ip, 15) + " "@ + at_left(mac, 17)
        + " "@ + at_left(tap, 10) + " "@ + host
}

/// The row of one port.
pub open spec fn port_shown_in_row(p: PortInfoView) -> Seq<char> {
    port_row(p.id, decimal(p.vni as nat), p.ip, p.mac, p.tap, p.host)
}

/// The table of ports: a heading, then a row for each.
pub open spec fn port_lines(ps: Seq<PortInfoView>) -> Seq<Seq<char>> {
    seq![port_row("id"@, "vni"@, "ip"@, "mac"@, "tap"@, "host"@)] + Seq::new(
        ps.len(),
        |i: int| port_shown_in_row(ps[i]),
    )
}

fn write_port_row(id: &str, vni: &str, ip: &str, mac: &str, tap: &str, host: &str) -> (r: String)
    ensures
        r@ == port_row(id@, vni@, ip@, mac@, tap@, host@),
{
    let mut s = String::new();
    push_left(&mut s, id, 22);
    assert(s@ =~= at_left(id@, 22));
    s.append(" ");
    push_right(&mut s, vni, 6);
    s.append("  ");
    push_left(&mut s, ip, 15);
    s.append(" ");
    push_left(&mut s, mac, 17);
    s.append(" ");
    push_left(&mut s, tap, 10);
    s.append(" ");
    s.append(host);
    s
}

/// Writes the table of ports, as [`port_lines`] says.
pub fn port_table(ports: &Vec<PortInfo>) -> (r: Vec<String>)
    ensures
        views(r@) == port_lines(views(ports@)),
{
    let ghost ps = views(ports@);
    let mut r: Vec<String> = Vec::new();
    r.push(write_port_row("id", "vni", "ip", "mac", "tap", "host"));
    for i in 0..ports.len()
        invariant
            ps == views(ports@),
            r@.len() == i + 1,
            forall|j: int| 0 <= j <= i ==> (#[trigger] r@[j])@ == port_lines(ps)[j],
    {
        let p = &ports[i];
        let vni = number_text(p.vni as u64);
        assert(port_lines(ps)[i + 1] == port_shown_in_row(ps[i as int]));
        r.push(
            write_port_row(
                p.id.as_str(),
                vni.as_str(),
                p.ip.as_str(),
                p.mac.as_str(),
                p.tap.as_str(),
                p.host.as_str(),
            ),
        );
    }
    assert(views(r@) =~= port_lines(ps));
    r
}

/// A row of a table with a name, a number and one more column.
pub open spec fn short_row(
    name: Seq<char>,
    width: nat,
    number: Seq<char>,
    number_width: nat,
    last: Seq<char>,
) -> Seq<char> {
    at_left(name, width) + " "@ + at_right(number, number_width) + "  "@ + last
}

fn write_short_row(name: &str, width: usize, number: &str, number_width: usize, last: &str) -> (r:
    String)
    ensures
        r@ == short_row(name@, width as nat, number@, number_width as nat, last@),
{
    let mut s = String::new();
    push_left(&mut s, name, width);
    assert(s@ =~= at_left(name@, width as nat));
    s.append(" ");
    push_right(&mut s, number, number_width);
    s.append("  ");
    s.append(last);
    s
}

/// The row of one security group: its name, its policy and how many rules it has.
pub open spec fn group_shown_in_row(g: SecurityGroupInfoView) -> Seq<char> {
    short_row(g.name, 24, decimal(g.policy_id as nat), 12, decimal(g.rules.len()))
}

/// The table of security groups: a heading, then a row for each.
pub open spec fn group_lines(gs: Seq<SecurityGroupInfoView>) -> Seq<Seq<char>> {
    seq![short_row("name"@, 24, "policy_id"@, 12, "rules"@)] + Seq::new(
        gs.len(),
        |i: int| group_shown_in_row(gs[i]),
    )
}

/// Writes the table of security groups, as [`group_lines`] says.
pub fn group_table(groups: &Vec<SecurityGroupInfo>) -> (r: Vec<String>)
    ensures
        views(r@) == group_lines(views(groups@)),
{
    let ghost gs = views(groups@);
    let mut r: Vec<String> = Vec::new();
    r.push(write_short_row("name", 24, "policy_id", 12, "rules"));
    for i in 0..groups.len()
        invariant
            gs == views(groups@),
            r@.len() == i + 1,
            forall|j: int| 0 <= j <= i ==> (#[trigger] r@[j])@ == group_lines(gs)[j],
    {
        let g = &groups[i];
        let policy = number_text(g.policy_id as u64);
        let rules = number_text(g.rules.len() as u64);
        assert(group_lines(gs)[i + 1] == group_shown_in_row(gs[i as int]));
        r.push(write_short_row(g.name.as_str(), 24, policy.as_str(), 12, rules.as_str()));
    }
    assert(views(r@) =~= group_lines(gs));
    r
}

/// The row of one node: its name, the version that it gets, and where that comes from.
pub open spec fn node_shown_in_row(n: NodeSummaryView) -> Seq<char> {
    short_row(n.node_id, 20, decimal(n.version as nat), 8, n.source)
}

/// The table of nodes: a heading, then a row for each.
pub open spec fn node_lines(ns: Seq<NodeSummaryView>) -> Seq<Seq<char>> {
    seq![short_row("node"@, 20, "version"@, 8, "source"@)] + Seq::new(
        ns.len(),
        |i: int| node_shown_in_row(ns[i]),
    )
}

/// Writes the table of nodes, as [`node_lines`] says.
pub fn node_table(nodes: &Vec<NodeSummary>) -> (r: Vec<String>)
    ensures
        views(r@) == node_lines(views(nodes@)),
{
    let ghost ns = views(nodes@);
    let mut r: Vec<String> = Vec::new();
    r.push(write_short_row("node", 20, "version", 8, "source"));
    for i in 0..nodes.len()
        invariant
            ns == views(nodes@),
            r@.len() == i + 1,
            forall|j: int| 0 <= j <= i ==> (#[trigger] r@[j])@ == node_lines(ns)[j],
    {
        let n = &nodes[i];
        let version = number_text(n.version);
        assert(node_lines(ns)[i + 1] == node_shown_in_row(ns[i as int]));
        r.push(write_short_row(n.node_id.as_str(), 20, version.as_str(), 8, n.source.as_str()));
    }
    assert(views(r@) =~= node_lines(ns));
    r
}

// ---------------------------------------------------------------------------
// Configurations
// ---------------------------------------------------------------------------

/// What becomes of a push of `node`'s configuration: a line, or why it failed.
pub open spec fn push_outcome(node: Seq<char>, ok: bool) -> Result<Seq<char>, Seq<char>> {
    if ok {
        Ok("set config for node "@ + debug_text(node))
    } else {
        Err("controller rejected the config"@)
    }
}

/// Tells what became of a push, as [`push_outcome`] says.
pub fn report_push(node: &str, ok: bool) -> (r: Result<String, String>)
    ensures
        text_result(r) == push_outcome(node@, ok),
{
    if ok {
        Ok(quoted("set config for node ", node))
    } else {
        Err(String::from_str("controller rejected the config"))
    }
}

/// Tells whether there was a pushed configuration to withdraw.
pub fn report_withdrawal(node: &str, ok: bool) -> (r: String)
    ensures
        r@ == (if ok {
            "removed"@
        } else {
            "no"@
        }) + " override for node "@ + debug_text(node@),
{
    let mut s = if ok {
        String::from_str("removed")
    } else {
        String::from_str("no")
    };
    s.append(" override for node ");
    s.append(debug_str(node).as_str());
    s
}

// ---------------------------------------------------------------------------
// Laws
// ---------------------------------------------------------------------------

/// The controller answers every command that changes the fabric with what the command prints.
pub proof fn answers_fit(a: OrchActionView, call: OrchCallView, r: TopoResponseView)
    requires
        asks(a) == Ok::<AskView, Seq<char>>(AskView::Call(call)),
        reply_to(call, r) is Ok,
    ensures
        fits(a, reply_to(call, r)->Ok_0),
{
}

/// A command asks for what it says, with its own arguments: a host without numbers of its own, a
/// network that lets packets pass, a port with an address only where one is given, and no group where
/// the binding is to be cleared.
pub proof fn command_is_carried(a: OrchActionView)
    ensures
        match a {
            OrchActionView::AddHost { id, vtep, iface, mac, encap } => {
                &&& asks(a) is Ok <==> encap == "geneve"@ || encap == "vxlan"@
                &&& asks(a) is Ok ==> (asks(a) matches Ok(AskView::Call(OrchCallView::AddHost(m)))
                    && m.id == id && m.vtep == vtep && m.underlay_iface == iface && m.underlay_mac
                    == mac && m.udp_port == 0 && m.underlay_mtu == 0 && (encap == "geneve"@
                    ==> m.encap == EncapName::Geneve) && (encap == "vxlan"@ ==> m.encap
                    == EncapName::Vxlan))
            },
            OrchActionView::AddNetwork { vni, name, subnet, drop_icmp } => asks(a) matches Ok(
                AskView::Call(OrchCallView::AddNetwork(m)),
            ) && m.vni == vni && m.name == name && m.subnet == subnet && m.default_action
                == WireAction::Pass && m.drop_icmp == drop_icmp,
            OrchActionView::CreatePort { network, host, tap, ip, policy } => asks(a) matches Ok(
                AskView::Call(
                    OrchCallView::CreatePort { network: n, host: h, tap: t, ip: x, policy: p },
                ),
            ) && n == network && h == host && t == tap && p == policy && (ip matches Some(s) ==> x
                == s) && (ip is None ==> x.len() == 0),
            OrchActionView::RemovePort { id } => asks(a) matches Ok(
                AskView::Call(OrchCallView::RemovePort { id: x }),
            ) && x == id,
            OrchActionView::MigratePort { id, host, tap } => asks(a) matches Ok(
                AskView::Call(OrchCallView::MigratePort { id: x, host: h, tap: t }),
            ) && x == id && h == host && t == tap,
            OrchActionView::ListPorts => asks(a) matches Ok(AskView::Ports),
            OrchActionView::AddSecurityGroup(g) => {
                &&& asks(a) is Ok <==> group_from_args(g) is Ok
                &&& asks(a) is Ok ==> (asks(a) matches Ok(
                    AskView::Call(OrchCallView::AddSecurityGroup(m)),
                ) && m == group_from_args(g)->Ok_0)
            },
            OrchActionView::RemoveSecurityGroup { name } => asks(a) matches Ok(
                AskView::Call(OrchCallView::RemoveSecurityGroup { name: x }),
            ) && x == name,
            OrchActionView::ListSecurityGroups => asks(a) matches Ok(AskView::SecurityGroups),
            OrchActionView::BindPort { port, group, clear } => asks(a) matches Ok(
                AskView::Call(OrchCallView::BindPortSecurityGroup { port_id, group: g }),
            ) && port_id == port && (clear ==> g is None) && (!clear ==> g == group),
        },
{
    reveal_strlit("geneve");
    reveal_strlit("vxlan");
    assert("geneve"@[0] == 'g' && "vxlan"@[0] == 'v');
}

/// A column is filled up with spaces to its width, behind a text at the left and before one at the
/// right; a text that is longer stands as it is.
pub proof fn columns_are_filled_up(s: Seq<char>, width: nat)
    ensures
        at_left(s, width).len() == if s.len() < width {
            width
        } else {
            s.len()
        },
        at_right(s, width).len() == at_left(s, width).len(),
        forall|i: int| 0 <= i < s.len() ==> #[trigger] at_left(s, width)[i] == s[i],
        forall|i: int| s.len() <= i < width ==> #[trigger] at_left(s, width)[i] == ' ',
        forall|i: int|
            0 <= i < s.len() ==> at_right(s, width)[at_right(s, width).len() - s.len() + i]
                == #[trigger] s[i],
        forall|i: int| 0 <= i < width - s.len() ==> #[trigger] at_right(s, width)[i] == ' ',
{
}

/// A table has a heading and one row for each entry, in their order, with the entry's own fields.
pub proof fn tables_list_their_entries(
    ps: Seq<PortInfoView>,
    gs: Seq<SecurityGroupInfoView>,
    ns: Seq<NodeSummaryView>,
)
    ensures
        port_lines(ps).len() == ps.len() + 1,
        port_lines(ps)[0] == port_row("id"@, "vni"@, "ip"@, "mac"@, "tap"@, "host"@),
        forall|i: int|
            0 <= i < ps.len() ==> port_lines(ps)[i + 1] == port_row(
                (#[trigger] ps[i]).id,
                decimal(ps[i].vni as nat),
                ps[i].ip,
                ps[i].mac,
                ps[i].tap,
                ps[i].host,
            ),
        group_lines(gs).len() == gs.len() + 1,
        group_lines(gs)[0] == short_row("name"@, 24, "policy_id"@, 12, "rules"@),
        forall|i: int|
            0 <= i < gs.len() ==> group_lines(gs)[i + 1] == short_row(
                (#[trigger] gs[i]).name,
                24,
                decimal(gs[i].policy_id as nat),
                12,
                decimal(gs[i].rules.len()),
            ),
        node_lines(ns).len() == ns.len() + 1,
        node_lines(ns)[0] == short_row("node"@, 20, "version"@, 8, "source"@),
        forall|i: int|
            0 <= i < ns.len() ==> node_lines(ns)[i + 1] == short_row(
                (#[trigger] ns[i]).node_id,
                20,
                decimal(ns[i].version as nat),
                8,
                ns[i].source,
            ),
{
}

/// What is printed of a change names what was done and to whom: of a port its id, addresses, host and
/// interface as the answer gives them, and of a removal whether there was anything to remove.
pub proof fn report_names_the_change(a: OrchActionView, reply: OrchReplyView)
    requires
        fits(a, reply),
    ensures
        match a {
            OrchActionView::AddHost { id, .. } => report_text(a, reply) == "added host "@
                + debug_text(id),
            OrchActionView::AddNetwork { vni, .. } => report_text(a, reply) == "added network vni "@
                + decimal(vni as nat),
            OrchActionView::CreatePort { .. } => reply matches OrchReplyView::Port(p)
                && report_text(a, reply) == "created port "@ + p.id + " : "@ + p.ip + " ("@ + p.mac
                + ") on "@ + p.host + " via "@ + p.tap,
            OrchActionView::MigratePort { .. } => reply matches OrchReplyView::Port(p)
                && report_text(a, reply) == "migrated port "@ + p.id + " : "@ + p.ip + " ("@ + p.mac
                + ") now on "@ + p.host + " via "@ + p.tap,
            OrchActionView::RemovePort { id } => reply matches OrchReplyView::Ack { ok } && (ok
                ==> report_text(a, reply) == "removed"@ + " port "@ + debug_text(id)) && (!ok
                ==> report_text(a, reply) == "no such"@ + " port "@ + debug_text(id)),
            OrchActionView::RemoveSecurityGroup { name } => reply matches OrchReplyView::Ack { ok }
                && (ok ==> report_text(a, reply) == "removed"@ + " security group "@ + debug_text(
                name,
            )) && (!ok ==> report_text(a, reply) == "no such"@ + " security group "@ + debug_text(
                name,
            )),
            OrchActionView::AddSecurityGroup(g) => report_text(a, reply)
                == "added security group "@ + debug_text(g.name),
            OrchActionView::BindPort { group, clear, .. } => reply matches OrchReplyView::Port(p)
                && (clear || group is None ==> report_text(a, reply)
                == "cleared security group on port "@ + debug_text(p.id)) && (!clear
                && group is Some ==> report_text(a, reply) == "bound port "@ + debug_text(p.id)
                + " to security group "@ + debug_text(group->0)),
            _ => false,
        },
{
}

/// A push is reported as done exactly where the controller accepted it, and by the node's name.
pub proof fn push_is_reported(node: Seq<char>, ok: bool)
    ensures
        push_outcome(node, ok) is Ok <==> ok,
        push_outcome(node, ok) matches Ok(t) ==> t == "set config for node "@ + debug_text(node),
        push_outcome(node, ok) matches Err(t) ==> t == "controller rejected the config"@,
{
}

/// An encapsulation is known by its word; another word is repeated with those that can be used.
pub proof fn encapsulation_is_named(s: Seq<char>)
    ensures
        encap_of(s) == Ok::<EncapName, Seq<char>>(EncapName::Vxlan) <==> s == "vxlan"@,
        encap_of(s) == Ok::<EncapName, Seq<char>>(EncapName::Geneve) <==> s == "geneve"@,
        s != "vxlan"@ && s != "geneve"@ ==> encap_of(s) == Err::<EncapName, Seq<char>>(
            "unknown encap "@ + debug_text(s) + " (use vxlan or geneve)"@,
        ),
{
    reveal_strlit("vxlan");
    reveal_strlit("geneve");
    assert("vxlan"@.len() == 5);
    assert("geneve"@.len() == 6);
}

/// A row sets its fields side by side: a space after each, and two after a number.
pub proof fn rows_set_fields_side_by_side(
    a: Seq<char>,
    b: Seq<char>,
    c: Seq<char>,
    d: Seq<char>,
    e: Seq<char>,
    f: Seq<char>,
    w: nat,
    v: nat,
)
    ensures
        short_row(a, w, b, v, c) == at_left(a, w) + " "@ + at_right(b, v) + "  "@ + c,
        port_row(a, b, c, d, e, f) == at_left(a, 22) + " "@ + at_right(b, 6) + "  "@ + at_left(
            c,
            15,
        ) + " "@ + at_left(d, 17) + " "@ + at_left(e, 10) + " "@ + f,
{
}

} // verus!
