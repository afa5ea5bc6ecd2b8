//! The firewall: what becomes of packets that come in, of packets that leave, and which stage
//! handles an allowed packet next.

use vstd::prelude::*;

use crate::addr::Ipv4Addr;
use crate::config::ActionName;
use crate::datapath::{
    be16, flow_key, flow_of, get16, get_mac, has_ports, mac_at, parse_frame, parsed, with_ports,
    Counter, FlowKey, Packet, Parsed, TcAction, XdpAction, ETH_LEN, IPV4_LEN, IPV6_LEN, O_ETH_SRC,
    O_IP6_MSG, O_IP6_NEXT, PROTO_ICMPV6, PROTO_UDP,
};
use crate::overlay::{
    srv6_unwraps, try_srv6_decap, tunnel_trusted, Srv6DecapAnswers, Taken, SRV6_L2_OUTER_LEN,
};
use crate::reply::{nd_handled, npt66_ingress_v6, try_nd, NaReply};

verus! {

/// What a firewall policy says of a packet, and the counter for it.
#[derive(Clone, Copy, Debug, PartialEq, Eq, Structural)]
pub struct Verdict {
    pub action: ActionName,
    pub counter: u32,
}

/// Whether a rule asks for a log line: bit eight of its value.
pub open spec fn rule_logs(rule: Option<u32>) -> bool {
    match rule {
        Some(v) => v / 256 % 2 == 1,
        None => false,
    }
}

/// Decides [`rule_logs`].
pub fn port_rule_logs(rule: Option<u32>) -> (r: bool)
    ensures
        r == rule_logs(rule),
{
    match rule {
        Some(v) => v / 256 % 2 == 1,
        None => false,
    }
}

// ---------------------------------------------------------------------------
// Packets that come in
// ---------------------------------------------------------------------------

/// What is looked up for a packet that comes in.
#[derive(Clone, Copy, Debug, PartialEq, Eq, Structural)]
pub struct IngressAnswers {
    /// The destination port is that of the overlay.
    pub overlay_port: bool,
    /// The address of this host's endpoint.
    pub local_vtep: Ipv4Addr,
    /// The source is the endpoint of a peer.
    pub known_vtep: bool,
    /// The policy of the interface; absent for the default one.
    pub policy: Option<u32>,
    /// The segment of the interface; absent or zero where it has none.
    pub vni: Option<u32>,
    /// The policy asks for log lines.
    pub log: bool,
    /// The policy keeps track of flows.
    pub stateful: bool,
    /// The source is on the policy's blocklist.
    pub blocklisted: bool,
    /// The rule for the packet.
    pub rule: Option<u32>,
    /// The destination port is forwarded.
    pub port_forward: bool,
    /// The packet's flow was allowed before.
    pub flow_known: bool,
    /// What the policy says of the packet.
    pub verdict: Verdict,
}

/// A line to be logged.
#[derive(Clone, Copy, Debug, PartialEq, Eq, Structural)]
pub enum LogLine {
    Silent,
    Dropped,
    Refused,
    Allowed,
}

/// What the later stages need of an allowed packet.
#[derive(Clone, Copy, Debug, PartialEq, Eq, Structural)]
pub struct ForwardScratch {
    pub packet: Packet,
    pub policy: u32,
    pub vni: u32,
    /// The counter of the firewall's decision.
    pub fw_counter: Counter,
    pub port_forward: bool,
    pub log: bool,
}

/// A tenant's MAC address, and the address behind it.
#[derive(Clone, Copy, Debug, PartialEq, Eq)]
pub struct LocalMac {
    pub vni: u32,
    pub mac: [u8; 6],
    pub ip: Ipv4Addr,
}

/// What happens next with a packet that came in.
#[derive(Clone, Copy, Debug, PartialEq, Eq, Structural)]
pub enum Next {
    /// It is decided, and counted.
    Finish(XdpAction, Counter),
    /// It is an IPv6 packet.
    Ipv6,
    /// It is an ARP message.
    Arp,
    /// It is a tunnelled frame from a peer: its outer headers are removed.
    Decap(Packet),
    /// It is refused.
    Refuse(Packet),
    /// It is allowed.
    Forward(ForwardScratch),
}

/// What a packet that came in leads to.
#[derive(Clone, Copy, Debug, PartialEq, Eq)]
pub struct IngressStep {
    pub next: Next,
    pub log: LogLine,
    /// The flow to be remembered, with its reverse.
    pub remember: Option<FlowKey>,
    /// What is learned of the sender.
    pub learned: Option<LocalMac>,
}

/// The policy that applies.
pub open spec fn policy_of(policy: Option<u32>) -> u32 {
    match policy {
        Some(p) => p,
        None => 0,
    }
}

/// Flows of the packet are kept track of.
pub open spec fn keeps_flow(stateful: bool, p: Packet) -> bool {
    stateful && has_ports(p.proto) && p.ihl == IPV4_LEN
}

/// The packet belongs to a flow that was allowed before.
pub open spec fn is_established(a: IngressAnswers, p: Packet) -> bool {
    keeps_flow(a.stateful, p) && a.flow_known
}

/// What the firewall decides, and the counter for it: the blocklist comes first, then flows that
/// were allowed before, then forwarded ports, then the policy.
pub open spec fn fw_decision(a: IngressAnswers, p: Packet) -> (ActionName, Counter) {
    if a.blocklisted {
        (ActionName::Drop, Counter::DroppedBlocklist)
    } else if is_established(a, p) {
        (ActionName::Pass, Counter::EstablishedAllowed)
    } else if a.port_forward {
        (ActionName::Pass, Counter::PassedRule)
    } else {
        (a.verdict.action, Counter::Policy(a.verdict.counter))
    }
}

/// What an IPv4 packet that is not tunnelled leads to.
pub open spec fn filtered(f: Seq<u8>, p: Packet, a: IngressAnswers) -> IngressStep {
    let decision = fw_decision(a, p);
    let want_log = a.log || rule_logs(a.rule);
    match decision.0 {
        ActionName::Drop => IngressStep {
            next: Next::Finish(XdpAction::Drop, decision.1),
            log: if want_log {
                LogLine::Dropped
            } else {
                LogLine::Silent
            },
            remember: None,
            learned: None,
        },
        ActionName::Reject => IngressStep {
            next: Next::Refuse(p),
            log: if want_log {
                LogLine::Refused
            } else {
                LogLine::Silent
            },
            remember: None,
            learned: None,
        },
        ActionName::Pass => IngressStep {
            next: Next::Forward(
                ForwardScratch {
                    packet: p,
                    policy: policy_of(a.policy),
                    vni: policy_of(a.vni),
                    fw_counter: decision.1,
                    port_forward: a.port_forward,
                    log: a.log,
                },
            ),
            log: if rule_logs(a.rule) && !is_established(a, p) {
                LogLine::Allowed
            } else {
                LogLine::Silent
            },
            remember: if keeps_flow(a.stateful, p) && !is_established(a, p) {
                Some(flow_of(policy_of(a.policy), p))
            } else {
                None
            },
            learned: if policy_of(a.vni) != 0 {
                Some(
                    LocalMac { vni: policy_of(a.vni), mac: mac_at(f, O_ETH_SRC as int), ip: p.src },
                )
            } else {
                None
            },
        },
    }
}

/// A step that only goes on.
pub open spec fn plain_step(next: Next) -> IngressStep {
    IngressStep { next, log: LogLine::Silent, remember: None, learned: None }
}

/// What a frame that came in leads to. A frame that cannot be read passes.
pub open spec fn ingress(f: Seq<u8>, a: IngressAnswers) -> IngressStep {
    match parsed(f) {
        Parsed::Short | Parsed::Malformed => plain_step(
            Next::Finish(XdpAction::Pass, Counter::Malformed),
        ),
        Parsed::Ipv6 => plain_step(Next::Ipv6),
        Parsed::Arp => plain_step(Next::Arp),
        Parsed::Other => plain_step(Next::Finish(XdpAction::Pass, Counter::NonIpv4)),
        Parsed::Ipv4(p) => if p.proto == PROTO_UDP && a.overlay_port {
            if tunnel_trusted(p.dst, a.local_vtep, a.known_vtep) {
                plain_step(Next::Decap(p))
            } else {
                plain_step(Next::Finish(XdpAction::Drop, Counter::OverlayDropUntrusted))
            }
        } else {
            filtered(f, p, a)
        },
    }
}

fn step(next: Next) -> (r: IngressStep)
    ensures
        r == plain_step(next),
{
    IngressStep { next, log: LogLine::Silent, remember: None, learned: None }
}

fn number_or_zero(n: Option<u32>) -> (r: u32)
    ensures
        r == policy_of(n),
{
    match n {
        Some(p) => p,
        None => 0,
    }
}

fn filter(frame: &Vec<u8>, p: Packet, a: &IngressAnswers) -> (r: IngressStep)
    requires
        frame@.len() >= ETH_LEN,
    ensures
        r == filtered(frame@, p, *a),
{
    let rule_log: bool = port_rule_logs(a.rule);
    let want_log: bool = a.log || rule_log;
    let keeps: bool = a.stateful && with_ports(p.proto) && p.ihl == IPV4_LEN;
    let established: bool = keeps && a.flow_known;
    let (action, counter) = if a.blocklisted {
        (ActionName::Drop, Counter::DroppedBlocklist)
    } else if established {
        (ActionName::Pass, Counter::EstablishedAllowed)
    } else if a.port_forward {
        (ActionName::Pass, Counter::PassedRule)
    } else {
        (a.verdict.action, Counter::Policy(a.verdict.counter))
    };
    match action {
        ActionName::Drop => {
            let log = if want_log {
                LogLine::Dropped
            } else {
                LogLine::Silent
            };
            IngressStep {
                next: Next::Finish(XdpAction::Drop, counter),
                log,
                remember: None,
                learned: None,
            }
        },
        ActionName::Reject => {
            let log = if want_log {
                LogLine::Refused
            } else {
                LogLine::Silent
            };
            IngressStep { next: Next::Refuse(p), log, remember: None, learned: None }
        },
        ActionName::Pass => {
            let policy: u32 = number_or_zero(a.policy);
            let vni: u32 = number_or_zero(a.vni);
            let remember = if keeps && !established {
                Some(flow_key(policy, &p))
            } else {
                None
            };
            let log = if rule_log && !established {
                LogLine::Allowed
            } else {
                LogLine::Silent
            };
            let learned = if vni != 0 {
                Some(LocalMac { vni, mac: get_mac(frame, O_ETH_SRC), ip: p.src })
            } else {
                None
            };
            IngressStep {
                next: Next::Forward(
                    ForwardScratch {
                        packet: p,
                        policy,
                        vni,
                        fw_counter: counter,
                        port_forward: a.port_forward,
                        log: a.log,
                    },
                ),
                log,
                remember,
                learned,
            }
        },
    }
}

/// Decides what happens with a frame that came in.
pub fn try_velstra(frame: &Vec<u8>, a: &IngressAnswers) -> (r: IngressStep)
    ensures
        r == ingress(frame@, *a),
{
    match parse_frame(frame) {
        Parsed::Short => step(Next::Finish(XdpAction::Pass, Counter::Malformed)),
        Parsed::Malformed => step(Next::Finish(XdpAction::Pass, Counter::Malformed)),
        Parsed::Ipv6 => step(Next::Ipv6),
        Parsed::Arp => step(Next::Arp),
        Parsed::Other => step(Next::Finish(XdpAction::Pass, Counter::NonIpv4)),
        Parsed::Ipv4(p) => if p.proto == PROTO_UDP && a.overlay_port {
            if p.dst == a.local_vtep && a.known_vtep {
                step(Next::Decap(p))
            } else {
                step(Next::Finish(XdpAction::Drop, Counter::OverlayDropUntrusted))
            }
        } else {
            filter(frame, p, a)
        },
    }
}

// ---------------------------------------------------------------------------
// IPv6 packets that come in
// ---------------------------------------------------------------------------

/// What is looked up for an IPv6 packet that comes in.
#[derive(Debug, PartialEq, Eq)]
pub struct Ipv6Answers {
    pub decap: Srv6DecapAnswers,
    /// The overlay is configured.
    pub overlay: bool,
    /// The segment of the interface.
    pub vni: u32,
    /// The advertisement for the target of a neighbour solicitation, where the target is known.
    pub advertisement: Option<NaReply>,
    /// The policy asks for log lines.
    pub log: bool,
    /// The rule for the packet.
    pub rule: Option<u32>,
    /// What the policy says of the packet.
    pub verdict: Verdict,
    /// The destination that the packet gets, where the interface translates prefixes and the
    /// destination is one that is translated.
    pub translated: Option<[u8; 16]>,
}

/// What an IPv6 packet leads to.
#[derive(Clone, Copy, Debug, PartialEq, Eq, Structural)]
pub struct Ipv6Step {
    pub action: XdpAction,
    pub counter: Counter,
    pub log: LogLine,
}

/// What is done with an IPv6 packet that no earlier stage took.
pub open spec fn filtered_v6(f: Seq<u8>, a: Ipv6Answers) -> (Ipv6Step, Seq<u8>) {
    if a.verdict.action != ActionName::Pass {
        (
            Ipv6Step {
                action: XdpAction::Drop,
                counter: Counter::Policy(a.verdict.counter),
                log: if a.log || rule_logs(a.rule) {
                    LogLine::Dropped
                } else {
                    LogLine::Silent
                },
            },
            f,
        )
    } else {
        (
            Ipv6Step {
                action: XdpAction::Pass,
                counter: Counter::Policy(a.verdict.counter),
                log: LogLine::Silent,
            },
            match a.translated {
                Some(d) => crate::datapath::patched(f, 38, d@),
                None => f,
            },
        )
    }
}

/// A decision without a log line.
pub open spec fn silent(action: XdpAction, counter: Counter) -> Ipv6Step {
    Ipv6Step { action, counter, log: LogLine::Silent }
}

/// What is done with an IPv6 packet, and the frame after it: a frame for a SID of this host is
/// unwrapped; a neighbour solicitation for a known address is answered; any other packet goes
/// through the firewall. A frame without an IPv6 header passes.
pub open spec fn ingress_v6(f: Seq<u8>, a: Ipv6Answers) -> (Ipv6Step, Seq<u8>) {
    if f.len() < ETH_LEN + IPV6_LEN {
        (silent(XdpAction::Pass, Counter::Malformed), f)
    } else if srv6_unwraps(a.decap) {
        if a.decap.accepted {
            (silent(XdpAction::Pass, Counter::Srv6Decap), f.skip(SRV6_L2_OUTER_LEN as int))
        } else {
            (silent(XdpAction::Pass, Counter::Malformed), f)
        }
    } else if f[O_IP6_NEXT as int] == PROTO_ICMPV6 {
        let nd = nd_handled(f, a.overlay, a.vni, a.advertisement);
        match nd.0 {
            Taken::Done(action, counter) => (silent(action, counter), nd.1),
            _ => filtered_v6(f, a),
        }
    } else {
        filtered_v6(f, a)
    }
}

fn filter_v6(frame: &mut Vec<u8>, a: &Ipv6Answers) -> (r: Ipv6Step)
    requires
        old(frame)@.len() >= ETH_LEN + IPV6_LEN,
    ensures
        (r, final(frame)@) == filtered_v6(old(frame)@, *a),
{
    match a.verdict.action {
        ActionName::Pass => {
            let translated = npt66_ingress_v6(frame, a.translated);
            Ipv6Step {
                action: XdpAction::Pass,
                counter: Counter::Policy(a.verdict.counter),
                log: LogLine::Silent,
            }
        },
        _ => {
            let log = if a.log || port_rule_logs(a.rule) {
                LogLine::Dropped
            } else {
                LogLine::Silent
            };
            Ipv6Step {
                action: XdpAction::Drop,
                counter: Counter::Policy(a.verdict.counter),
                log,
            }
        },
    }
}

/// Decides what happens with an IPv6 packet that came in.
pub fn try_velstra_v6(frame: &mut Vec<u8>, a: &Ipv6Answers) -> (r: Ipv6Step)
    ensures
        (r, final(frame)@) == ingress_v6(old(frame)@, *a),
{
    if frame.len() < ETH_LEN + IPV6_LEN {
        return Ipv6Step {
            action: XdpAction::Pass,
            counter: Counter::Malformed,
            log: LogLine::Silent,
        };
    }
    match try_srv6_decap(frame, &a.decap) {
        Taken::Done(action, counter) => {
            return Ipv6Step { action, counter, log: LogLine::Silent };
        },
        _ => {},
    }
    if frame[O_IP6_NEXT] == PROTO_ICMPV6 {
        match try_nd(frame, a.overlay, a.vni, &a.advertisement) {
            Taken::Done(action, counter) => {
                return Ipv6Step { action, counter, log: LogLine::Silent };
            },
            _ => {},
        }
    }
    filter_v6(frame, a)
}

/// The ports of an IPv6 packet whose fixed header is followed by TCP or UDP; zero for any other.
pub fn ipv6_ports(frame: &Vec<u8>) -> (r: (u16, u16))
    requires
        frame@.len() >= ETH_LEN + IPV6_LEN,
    ensures
        r == if has_ports(frame@[O_IP6_NEXT as int]) && frame@.len() >= O_IP6_MSG + 4 {
            (be16(frame@, O_IP6_MSG as int), be16(frame@, O_IP6_MSG + 2))
        } else {
            (0u16, 0u16)
        },
{
    if with_ports(frame[O_IP6_NEXT]) && frame.len() >= O_IP6_MSG + 4 {
        (get16(frame, O_IP6_MSG), get16(frame, O_IP6_MSG + 2))
    } else {
        (0, 0)
    }
}

// ---------------------------------------------------------------------------
// Packets that leave
// ---------------------------------------------------------------------------

/// What is looked up for a packet that leaves.
#[derive(Clone, Copy, Debug, PartialEq, Eq, Structural)]
pub struct EgressAnswers {
    /// The address that the interface's packets get, where it masquerades.
    pub masquerade: Option<Ipv4Addr>,
    /// The policy of the interface; absent for the default one.
    pub policy: Option<u32>,
    /// The policy asks for log lines.
    pub log: bool,
    /// The policy keeps track of flows.
    pub stateful: bool,
    /// The rule for the packet.
    pub rule: Option<u32>,
    /// What the policy says of the packet, with the blocklist held against its destination.
    pub verdict: Verdict,
}

/// What happens next with a packet that leaves.
#[derive(Clone, Copy, Debug, PartialEq, Eq, Structural)]
pub enum EgressNext {
    Finish(TcAction),
    /// It is an IPv6 packet: its source may be translated.
    Ipv6,
    /// It leaves a masquerading interface, under the given policy and from the given address.
    Masquerade(Packet, u32, Ipv4Addr),
}

/// What a packet that leaves leads to.
#[derive(Clone, Copy, Debug, PartialEq, Eq, Structural)]
pub struct EgressStep {
    pub next: EgressNext,
    pub counter: Option<Counter>,
    pub log: LogLine,
    /// The flow to be remembered, with its reverse.
    pub remember: Option<FlowKey>,
}

/// A step that is neither counted nor logged.
pub open spec fn quiet(next: EgressNext) -> EgressStep {
    EgressStep { next, counter: None, log: LogLine::Silent, remember: None }
}

/// What a packet that leaves leads to. Masquerading comes before the firewall: what leaves there is
/// the answer to no rule. A refusal is a drop, since it cannot be answered here. A frame that
/// cannot be read leaves.
pub open spec fn egress(f: Seq<u8>, a: EgressAnswers) -> EgressStep {
    match parsed(f) {
        Parsed::Ipv6 => quiet(EgressNext::Ipv6),
        Parsed::Ipv4(p) => match a.masquerade {
            Some(wan_ip) => quiet(EgressNext::Masquerade(p, policy_of(a.policy), wan_ip)),
            None => if a.verdict.action != ActionName::Pass {
                EgressStep {
                    next: EgressNext::Finish(TcAction::Shot),
                    counter: Some(Counter::EgressDropped),
                    log: if a.log || rule_logs(a.rule) {
                        LogLine::Dropped
                    } else {
                        LogLine::Silent
                    },
                    remember: None,
                }
            } else {
                EgressStep {
                    next: EgressNext::Finish(TcAction::Accept),
                    counter: None,
                    log: LogLine::Silent,
                    remember: if keeps_flow(a.stateful, p) {
                        Some(flow_of(policy_of(a.policy), p))
                    } else {
                        None
                    },
                }
            },
        },
        _ => quiet(EgressNext::Finish(TcAction::Accept)),
    }
}

fn still(next: EgressNext) -> (r: EgressStep)
    ensures
        r == quiet(next),
{
    EgressStep { next, counter: None, log: LogLine::Silent, remember: None }
}

/// Decides what happens with a packet that leaves.
pub fn try_egress(frame: &Vec<u8>, a: &EgressAnswers) -> (r: EgressStep)
    ensures
        r == egress(frame@, *a),
{
    match parse_frame(frame) {
        Parsed::Ipv6 => still(EgressNext::Ipv6),
        Parsed::Ipv4(p) => {
            let policy: u32 = number_or_zero(a.policy);
            match a.masquerade {
                Some(wan_ip) => {
                    return still(EgressNext::Masquerade(p, policy, wan_ip));
                },
                None => {},
            }
            match a.verdict.action {
                ActionName::Pass => {
                    let keeps: bool = a.stateful && with_ports(p.proto) && p.ihl == IPV4_LEN;
                    let remember = if keeps {
                        Some(flow_key(policy, &p))
                    } else {
                        None
                    };
                    EgressStep {
                        next: EgressNext::Finish(TcAction::Accept),
                        counter: None,
                        log: LogLine::Silent,
                        remember,
                    }
                },
                _ => {
                    let log = if a.log || port_rule_logs(a.rule) {
                        LogLine::Dropped
                    } else {
                        LogLine::Silent
                    };
                    EgressStep {
                        next: EgressNext::Finish(TcAction::Shot),
                        counter: Some(Counter::EgressDropped),
                        log,
                        remember: None,
                    }
                },
            }
        },
        _ => still(EgressNext::Finish(TcAction::Accept)),
    }
}

// ---------------------------------------------------------------------------
// The stages of an allowed packet
// ---------------------------------------------------------------------------

/// The stages that may take an allowed packet, in their order.
#[derive(Clone, Copy, Debug, PartialEq, Eq, Structural)]
pub enum Stage {
    Srv6,
    Tunnel,
    PortForward,
    Balance,
    Route,
}

/// What follows a stage.
#[derive(Clone, Copy, Debug, PartialEq, Eq, Structural)]
pub enum Progress {
    Go(Stage),
    Finish(XdpAction, Counter),
}

/// The stage that follows one that left the packet.
pub open spec fn stage_after(stage: Stage, s: ForwardScratch) -> Progress {
    match stage {
        Stage::Srv6 => Progress::Go(Stage::Tunnel),
        Stage::Tunnel => if s.port_forward {
            Progress::Go(Stage::PortForward)
        } else {
            Progress::Go(Stage::Balance)
        },
        Stage::PortForward => Progress::Go(Stage::Balance),
        Stage::Balance => Progress::Go(Stage::Route),
        Stage::Route => Progress::Finish(XdpAction::Pass, s.fw_counter),
    }
}

/// What follows a stage: its decision, where it took the packet; a pass, where the frame was too
/// short; else the next stage, and behind the last one the firewall's decision.
pub open spec fn progress(stage: Stage, taken: Taken, s: ForwardScratch) -> Progress {
    match taken {
        Taken::Done(action, counter) => Progress::Finish(action, counter),
        Taken::Short => Progress::Finish(XdpAction::Pass, Counter::Malformed),
        Taken::Fall => stage_after(stage, s),
    }
}

/// Decides what follows a stage.
pub fn try_velstra_forward(stage: Stage, taken: Taken, s: &ForwardScratch) -> (r: Progress)
    ensures
        r == progress(stage, taken, *s),
{
    match taken {
        Taken::Done(action, counter) => Progress::Finish(action, counter),
        Taken::Short => Progress::Finish(XdpAction::Pass, Counter::Malformed),
        Taken::Fall => match stage {
            Stage::Srv6 => Progress::Go(Stage::Tunnel),
            Stage::Tunnel => if s.port_forward {
                Progress::Go(Stage::PortForward)
            } else {
                Progress::Go(Stage::Balance)
            },
            Stage::PortForward => Progress::Go(Stage::Balance),
            Stage::Balance => Progress::Go(Stage::Route),
            Stage::Route => Progress::Finish(XdpAction::Pass, s.fw_counter),
        },
    }
}

// ---------------------------------------------------------------------------
// Laws
// ---------------------------------------------------------------------------

/// How many stages can still follow, this one included.
pub open spec fn stages_left(stage: Stage) -> int {
    match stage {
        Stage::Srv6 => 5,
        Stage::Tunnel => 4,
        Stage::PortForward => 3,
        Stage::Balance => 2,
        Stage::Route => 1,
    }
}

/// Every packet is decided: each stage leads to a later one or to a decision.
pub proof fn stages_advance(stage: Stage, taken: Taken, s: ForwardScratch)
    ensures
        progress(stage, taken, s) matches Progress::Go(next) ==> stages_left(next) < stages_left(
            stage,
        ),
        stages_left(stage) == 1 ==> progress(stage, taken, s) is Finish,
{
}

/// A packet from a blocked source is dropped, whatever else was looked up.
pub proof fn blocklist_wins(f: Seq<u8>, p: Packet, a: IngressAnswers)
    requires
        a.blocklisted,
    ensures
        filtered(f, p, a).next == Next::Finish(XdpAction::Drop, Counter::DroppedBlocklist),
        filtered(f, p, a).remember is None,
{
}

/// The reply of an allowed flow passes, whatever the policy says of it, unless its source is
/// blocked.
pub proof fn reply_passes(f: Seq<u8>, p: Packet, a: IngressAnswers)
    requires
        keeps_flow(a.stateful, p),
        a.flow_known,
        !a.blocklisted,
    ensures
        filtered(f, p, a).next is Forward,
{
}

/// A tunnelled frame is unwrapped only where it comes from a peer and is for this host.
pub proof fn untrusted_tunnel_is_dropped(f: Seq<u8>, p: Packet, a: IngressAnswers)
    requires
        parsed(f) == Parsed::Ipv4(p),
        p.proto == PROTO_UDP,
        a.overlay_port,
        !tunnel_trusted(p.dst, a.local_vtep, a.known_vtep),
    ensures
        ingress(f, a).next == Next::Finish(XdpAction::Drop, Counter::OverlayDropUntrusted),
{
}

/// What is remembered of a flow that leaves lets its reply in: the reply has the reverse flow.
pub proof fn reply_has_the_reverse_flow(policy: u32, p: Packet, q: Packet)
    requires
        q.src == p.dst,
        q.dst == p.src,
        q.src_port == p.dst_port,
        q.dst_port == p.src_port,
        q.proto == p.proto,
    ensures
        flow_of(policy, q) == flow_of(policy, p).reversed(),
{
}

/// What the firewall lets through of the IPv4 packets that are not tunnelled: all but those from a
/// blocked source, where the flow is known to a policy that keeps track of it, or the port is
/// forwarded, or the policy passes it. A drop is counted under what caused it.
pub proof fn ingress_is_filtered(f: Seq<u8>, p: Packet, a: IngressAnswers)
    requires
        parsed(f) == Parsed::Ipv4(p),
        !(p.proto == 17 && a.overlay_port),
    ensures
        ({
            let known = a.stateful && (p.proto == 6 || p.proto == 17) && p.ihl == 20 && a.flow_known;
            let opened = known || a.port_forward;
            let next = ingress(f, a).next;
            &&& next is Forward <==> !a.blocklisted && (opened || a.verdict.action
                == ActionName::Pass)
            &&& next is Refuse <==> !a.blocklisted && !opened && a.verdict.action
                == ActionName::Reject
            &&& next is Finish <==> a.blocklisted || !opened && a.verdict.action == ActionName::Drop
            &&& next matches Next::Finish(action, counter) ==> action == XdpAction::Drop && counter
                == if a.blocklisted {
                Counter::DroppedBlocklist
            } else {
                Counter::Policy(a.verdict.counter)
            }
            &&& next matches Next::Refuse(q) ==> q == p
            &&& next matches Next::Forward(s) ==> s.fw_counter == if known {
                Counter::EstablishedAllowed
            } else if a.port_forward {
                Counter::PassedRule
            } else {
                Counter::Policy(a.verdict.counter)
            }
        }),
{
}

/// What the later stages get of an allowed packet, what is remembered of its flow and what is learned
/// of its sender.
pub proof fn allowed_packet_is_handed_on(f: Seq<u8>, p: Packet, a: IngressAnswers)
    requires
        parsed(f) == Parsed::Ipv4(p),
        ingress(f, a).next is Forward,
    ensures
        ({
            let step = ingress(f, a);
            let s = step.next->Forward_0;
            &&& s.packet == p
            &&& a.policy matches Some(n) ==> s.policy == n
            &&& a.policy is None ==> s.policy == 0
            &&& a.vni matches Some(n) ==> s.vni == n
            &&& a.vni is None ==> s.vni == 0
            &&& s.port_forward == a.port_forward
            &&& s.log == a.log
            &&& step.remember is Some <==> a.stateful && !a.flow_known && (p.proto == 6 || p.proto
                == 17) && p.ihl == 20
            &&& step.remember matches Some(k) ==> k.policy == s.policy && k.src == p.src && k.dst
                == p.dst && k.src_port == p.src_port && k.dst_port == p.dst_port && k.proto
                == p.proto
            &&& step.learned is Some <==> s.vni != 0
            &&& step.learned matches Some(m) ==> m.vni == s.vni && m.ip == p.src && m.mac[0] == f[6]
                && m.mac[1] == f[7] && m.mac[2] == f[8] && m.mac[3] == f[9] && m.mac[4] == f[10]
                && m.mac[5] == f[11]
        }),
{
}

/// A packet that is not allowed leaves no trace: no flow is remembered and no sender learned.
pub proof fn refused_packet_leaves_no_trace(f: Seq<u8>, a: IngressAnswers)
    requires
        !(ingress(f, a).next is Forward),
    ensures
        ingress(f, a).remember is None,
        ingress(f, a).learned is None,
{
}

/// Frames other than IPv4 go their own ways, and what cannot be read passes.
pub proof fn other_frames_go_their_ways(f: Seq<u8>, a: IngressAnswers)
    ensures
        ingress(f, a).next is Ipv6 <==> parsed(f) is Ipv6,
        ingress(f, a).next is Arp <==> parsed(f) is Arp,
        parsed(f) is Other ==> ingress(f, a).next == Next::Finish(
            XdpAction::Pass,
            Counter::NonIpv4,
        ),
        parsed(f) is Short || parsed(f) is Malformed ==> ingress(f, a).next == Next::Finish(
            XdpAction::Pass,
            Counter::Malformed,
        ),
{
}

/// A frame is unwrapped exactly where it is a datagram for the overlay's port at this host's own
/// endpoint, from the endpoint of a peer; any other datagram for that port is dropped.
pub proof fn tunnel_is_authenticated(f: Seq<u8>, a: IngressAnswers)
    ensures
        ingress(f, a).next is Decap <==> (parsed(f) matches Parsed::Ipv4(p) && p.proto == 17
            && a.overlay_port && p.dst == a.local_vtep && a.known_vtep),
        ingress(f, a).next matches Next::Decap(q) ==> parsed(f) == Parsed::Ipv4(q),
        (parsed(f) matches Parsed::Ipv4(p) && p.proto == 17 && a.overlay_port && (p.dst
            != a.local_vtep || !a.known_vtep)) ==> ingress(f, a).next == Next::Finish(
            XdpAction::Drop,
            Counter::OverlayDropUntrusted,
        ),
{
}

/// Bit eight of a rule's value asks for a log line, and no other bit does.
pub proof fn log_bit(low: u32, high: u32)
    requires
        low < 256,
        high < 0x80_0000,
    ensures
        rule_logs(Some((low + 256 + 512 * high) as u32)),
        !rule_logs(Some((low + 512 * high) as u32)),
        !rule_logs(None),
{
}

/// What is logged of a packet that comes in: a drop or a refusal where the policy or the rule asks
/// for it; a new flow where the rule asks for it.
pub proof fn ingress_log(f: Seq<u8>, p: Packet, a: IngressAnswers)
    requires
        parsed(f) == Parsed::Ipv4(p),
        !(p.proto == 17 && a.overlay_port),
    ensures
        ({
            let step = ingress(f, a);
            let known = a.stateful && (p.proto == 6 || p.proto == 17) && p.ihl == 20 && a.flow_known;
            &&& step.log == LogLine::Dropped <==> step.next is Finish && (a.log || rule_logs(a.rule))
            &&& step.log == LogLine::Refused <==> step.next is Refuse && (a.log || rule_logs(a.rule))
            &&& step.log == LogLine::Allowed <==> step.next is Forward && rule_logs(a.rule) && !known
        }),
{
}

/// The earlier stages leave an IPv6 packet to the firewall.
pub open spec fn untaken_v6(f: Seq<u8>, a: Ipv6Answers) -> bool {
    &&& f.len() >= 54
    &&& !(a.decap.enabled && a.decap.vni == 0 && a.decap.local_sid == Some(true))
    &&& f[20] != 58 || !a.overlay || a.vni == 0 || a.advertisement is None || f.len() < 86 || f[18]
        * 256 + f[19] < 32 || f[54] != 135
}

/// An IPv6 packet that no earlier stage takes passes exactly where the policy's verdict is to pass;
/// where it is to drop or to reject, the packet is dropped and the frame left as it is. It is counted
/// under the policy's counter, and a drop is logged where the policy or the rule asks for it.
pub proof fn ipv6_is_filtered(f: Seq<u8>, a: Ipv6Answers)
    requires
        untaken_v6(f, a),
    ensures
        ({
            let (step, g) = ingress_v6(f, a);
            &&& a.verdict.action == ActionName::Pass ==> step.action == XdpAction::Pass
            &&& a.verdict.action == ActionName::Drop ==> step.action == XdpAction::Drop && g == f
            &&& a.verdict.action == ActionName::Reject ==> step.action == XdpAction::Drop && g == f
            &&& step.counter == Counter::Policy(a.verdict.counter)
            &&& step.log == LogLine::Dropped <==> step.action == XdpAction::Drop && (a.log
                || rule_logs(a.rule))
            &&& step.log == LogLine::Silent <==> !(step.action == XdpAction::Drop && (a.log
                || rule_logs(a.rule)))
        }),
{
}

/// An allowed IPv6 packet gets its translated destination, and nothing else of it changes.
pub proof fn allowed_ipv6_is_translated(f: Seq<u8>, a: Ipv6Answers)
    requires
        untaken_v6(f, a),
        a.verdict.action == ActionName::Pass,
    ensures
        ({
            let g = ingress_v6(f, a).1;
            &&& a.translated is None ==> g == f
            &&& a.translated matches Some(d) ==> g.len() == f.len() && forall|i: int|
                0 <= i < f.len() ==> #[trigger] g[i] == if 38 <= i < 54 {
                    d[i - 38]
                } else {
                    f[i]
                }
        }),
{
    if let Some(d) = a.translated {
        crate::datapath::patched_index(f, 38, d@);
    }
}

/// A frame for a unicast SID of this host, from the underlay, is unwrapped before the policy is held
/// against it: its Ethernet and IPv6 headers go.
pub proof fn own_sid_is_unwrapped(f: Seq<u8>, a: Ipv6Answers)
    requires
        f.len() >= 54,
        a.decap.enabled,
        a.decap.vni == 0,
        a.decap.local_sid == Some(true),
    ensures
        ingress_v6(f, a).0.action == XdpAction::Pass,
        a.decap.accepted ==> ingress_v6(f, a).1 == f.skip(54) && ingress_v6(f, a).0.counter
            == Counter::Srv6Decap,
        !a.decap.accepted ==> ingress_v6(f, a).1 == f && ingress_v6(f, a).0.counter
            == Counter::Malformed,
{
}

/// A tenant's neighbour solicitation for a known address is answered, whatever the policy says.
pub proof fn known_neighbour_is_answered(f: Seq<u8>, a: Ipv6Answers)
    requires
        f.len() >= 86,
        !(a.decap.enabled && a.decap.vni == 0 && a.decap.local_sid == Some(true)),
        f[20] == 58,
        f[18] * 256 + f[19] >= 32,
        f[54] == 135,
        a.overlay,
        a.vni != 0,
        a.advertisement is Some,
    ensures
        ingress_v6(f, a).0.action == XdpAction::Tx,
        ingress_v6(f, a).0.counter == Counter::NdSuppressed,
{
}

/// What leaves an interface: IPv4 packets of a masquerading interface whatever the policy says, those
/// of another where the policy passes them, and everything else.
pub proof fn egress_is_filtered(f: Seq<u8>, a: EgressAnswers)
    ensures
        ({
            let step = egress(f, a);
            &&& step.next == EgressNext::Finish(TcAction::Shot) <==> parsed(f) is Ipv4
                && a.masquerade is None && a.verdict.action != ActionName::Pass
            &&& step.next is Masquerade <==> parsed(f) is Ipv4 && a.masquerade is Some
            &&& step.next is Ipv6 <==> parsed(f) is Ipv6
            &&& step.next matches EgressNext::Masquerade(p, policy, ip) ==> parsed(f)
                == Parsed::Ipv4(p) && a.masquerade == Some(ip) && (a.policy matches Some(n)
                ==> policy == n) && (a.policy is None ==> policy == 0)
            &&& step.counter == Some(Counter::EgressDropped) <==> step.next == EgressNext::Finish(
                TcAction::Shot,
            )
            &&& step.counter is Some ==> step.counter == Some(Counter::EgressDropped)
            &&& step.log == LogLine::Dropped <==> step.next == EgressNext::Finish(TcAction::Shot)
                && (a.log || rule_logs(a.rule))
            &&& step.log == LogLine::Dropped || step.log == LogLine::Silent
        }),
{
}

/// What is remembered of a packet that leaves: the flow of an allowed TCP or UDP packet without IPv4
/// options, where the policy keeps track.
pub proof fn egress_remembers(f: Seq<u8>, p: Packet, a: EgressAnswers)
    requires
        parsed(f) == Parsed::Ipv4(p),
        a.masquerade is None,
    ensures
        ({
            let step = egress(f, a);
            &&& step.remember is Some <==> a.verdict.action == ActionName::Pass && a.stateful && (
            p.proto == 6 || p.proto == 17) && p.ihl == 20
            &&& step.remember matches Some(k) ==> k.src == p.src && k.dst == p.dst && k.src_port
                == p.src_port && k.dst_port == p.dst_port && k.proto == p.proto && (
            a.policy matches Some(n) ==> k.policy == n) && (a.policy is None ==> k.policy == 0)
        }),
{
}

/// A packet that every stage leaves goes through all of them in order, port forwarding only where the
/// port is forwarded, and then passes under the firewall's counter.
pub proof fn stages_in_order(s: ForwardScratch)
    ensures
        progress(Stage::Srv6, Taken::Fall, s) == Progress::Go(Stage::Tunnel),
        s.port_forward ==> progress(Stage::Tunnel, Taken::Fall, s) == Progress::Go(
            Stage::PortForward,
        ),
        !s.port_forward ==> progress(Stage::Tunnel, Taken::Fall, s) == Progress::Go(Stage::Balance),
        progress(Stage::PortForward, Taken::Fall, s) == Progress::Go(Stage::Balance),
        progress(Stage::Balance, Taken::Fall, s) == Progress::Go(Stage::Route),
        progress(Stage::Route, Taken::Fall, s) == Progress::Finish(XdpAction::Pass, s.fw_counter),
{
}

/// What a stage decides stands, and a frame that is too short for a stage passes.
pub proof fn stage_decides(
    stage: Stage,
    action: XdpAction,
    counter: Counter,
    s: ForwardScratch,
)
    ensures
        progress(stage, Taken::Done(action, counter), s) == Progress::Finish(action, counter),
        progress(stage, Taken::Short, s) == Progress::Finish(XdpAction::Pass, Counter::Malformed),
{
}

} // verus!
