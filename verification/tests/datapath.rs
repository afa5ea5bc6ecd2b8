//! Frames on their way through a host: reading, filtering, wrapping, answering and translating.

use velstra::addr::Ipv4Addr;
use velstra::config::ActionName;
use velstra::datapath::{
    flow_key, get16, get32, parse_frame, put16, put32, received, transmitted, Counter, FlowKey, Packet, Parsed,
    TcAction, XdpAction,
};
use velstra::firewall::{
    ipv6_ports, port_rule_logs, try_egress, try_velstra, try_velstra_forward, try_velstra_v6,
    EgressAnswers, EgressNext, ForwardScratch, IngressAnswers, Ipv6Answers, LogLine, Next,
    Progress, Stage, Verdict,
};
use velstra::lookup::{
    balance_keys, egress_keys, encap_keys, ingress_keys, ipv6_keys, mac_key, port_forward_flow,
    probe_keys, route_key, session_key, MacKey, PortKey, RuleKey, ScopedAddr, ServiceKey,
    SessionKey,
};
use velstra::overlay::{
    choose_endpoint, flow_entropy, try_bum, try_decap, try_encap, try_srv6_decap, try_srv6_encap,
    BumAnswers, EncapAnswers, Endpoint, Srv6DecapAnswers, Taken,
};
use velstra::reply::{
    arp_target, forward, nd_target, npt66_egress_v6, npt66_ingress_v6, reject_icmp_unreachable,
    reject_packet, route_frame, try_arp, try_nd, write_rst, ForwardOutcome, NaReply, Refusal,
    Rewrite, Segment, TcpRst,
};
use velstra::translation::{
    after_reply_recorded, apply_nat, backend_index, choose_port, first_inputs, l4_checksum, masquerade_egress,
    masquerade_outcome, napt_port, napt_seed, rewrite_source, second_inputs, snat_tc, translate,
    try_load_balance, try_port_forward, FlowState, LbAnswers, Masquerade, Nat, NatPlan, NatRequest,
    PortFwd, ServiceValue, SkbStep, Target,
};

const HOST_A: [u8; 6] = [2, 0, 0, 0, 0, 0x0a];
const HOST_B: [u8; 6] = [2, 0, 0, 0, 0, 0x0b];

fn ip(a: u8, b: u8, c: u8, d: u8) -> Ipv4Addr {
    Ipv4Addr::from_octets([a, b, c, d])
}

fn target(ip: Ipv4Addr, port: u16) -> Target {
    Target { ip, port }
}

/// A frame from 10.0.0.1:1000 (host A) to 10.0.0.2:80 (host B) with `payload` bytes behind the
/// layer-4 header.
fn frame(proto: u8, payload: usize) -> Vec<u8> {
    let l4 = if proto == 6 { 20 } else { 8 };
    let mut f: Vec<u8> = Vec::new();
    f.extend_from_slice(&HOST_B);
    f.extend_from_slice(&HOST_A);
    f.extend_from_slice(&[0x08, 0x00]);
    let total = (20 + l4 + payload) as u16;
    f.extend_from_slice(&[0x45, 0]);
    f.extend_from_slice(&total.to_be_bytes());
    f.extend_from_slice(&[0x12, 0x34, 0, 0, 63, proto, 0xab, 0xcd]);
    f.extend_from_slice(&[10, 0, 0, 1]);
    f.extend_from_slice(&[10, 0, 0, 2]);
    f.extend_from_slice(&1000u16.to_be_bytes());
    f.extend_from_slice(&80u16.to_be_bytes());
    if proto == 6 {
        f.extend_from_slice(&0x0102_0304u32.to_be_bytes());
        f.extend_from_slice(&0x0506_0708u32.to_be_bytes());
        f.extend_from_slice(&[0x50, 0x02, 0, 0, 0x11, 0x22, 0, 0]);
    } else {
        f.extend_from_slice(&[0, 8, 0x33, 0x44]);
    }
    f.extend(std::iter::repeat(0x5a).take(payload));
    f
}

fn ipv6_frame(next: u8, body: &[u8]) -> Vec<u8> {
    let mut f: Vec<u8> = Vec::new();
    f.extend_from_slice(&HOST_B);
    f.extend_from_slice(&HOST_A);
    f.extend_from_slice(&[0x86, 0xdd, 0x60, 0, 0, 0]);
    f.extend_from_slice(&(body.len() as u16).to_be_bytes());
    f.extend_from_slice(&[next, 64]);
    f.extend_from_slice(&[0x11; 16]);
    f.extend_from_slice(&[0x22; 16]);
    f.extend_from_slice(body);
    f
}

fn packet(f: &Vec<u8>) -> Packet {
    match parse_frame(f) {
        Parsed::Ipv4(p) => p,
        other => panic!("{other:?}"),
    }
}

// ---------------------------------------------------------------------------
// Reading
// ---------------------------------------------------------------------------

#[test]
fn fields_are_read_and_written_in_network_order() {
    let mut f = vec![0u8; 8];
    put16(&mut f, 1, 0x1234);
    put32(&mut f, 3, 0xdead_beef);
    assert_eq!(f, vec![0, 0x12, 0x34, 0xde, 0xad, 0xbe, 0xef, 0]);
    assert_eq!(get16(&f, 1), 0x1234);
    assert_eq!(get32(&f, 3), 0xdead_beef);
}

#[test]
fn headers_of_a_tcp_frame_are_read() {
    assert_eq!(
        parse_frame(&frame(6, 0)),
        Parsed::Ipv4(Packet {
            ihl: 20,
            proto: 6,
            ttl: 63,
            checksum: 0xabcd,
            tot_len: 40,
            src: ip(10, 0, 0, 1),
            dst: ip(10, 0, 0, 2),
            src_port: 1000,
            dst_port: 80,
        })
    );
}

#[test]
fn frames_that_cannot_be_read_are_told_apart() {
    let f = frame(6, 0);
    assert_eq!(parse_frame(&f[..13].to_vec()), Parsed::Short);
    assert_eq!(parse_frame(&f[..33].to_vec()), Parsed::Short);
    let mut v5 = f.clone();
    v5[14] = 0x55;
    assert_eq!(parse_frame(&v5), Parsed::Malformed);
    let mut tiny = f.clone();
    tiny[14] = 0x44;
    assert_eq!(parse_frame(&tiny), Parsed::Malformed);
    let mut arp = f.clone();
    arp[13] = 0x06;
    assert_eq!(parse_frame(&arp), Parsed::Arp);
    let mut other = f.clone();
    other[12] = 0x88;
    assert_eq!(parse_frame(&other), Parsed::Other);
    assert_eq!(parse_frame(&ipv6_frame(6, &[])), Parsed::Ipv6);
}

#[test]
fn later_fragments_and_truncated_headers_have_no_ports() {
    let mut f = frame(17, 0);
    f[21] = 1;
    let p = packet(&f);
    assert_eq!((p.src_port, p.dst_port), (0, 0));
    // The don't-fragment and more-fragments flags are no offset.
    let mut g = frame(17, 0);
    g[20] = 0x60;
    assert_eq!(packet(&g).dst_port, 80);
    let short = packet(&frame(17, 0)[..37].to_vec());
    assert_eq!((short.src_port, short.dst_port), (0, 0));
}

#[test]
fn a_header_with_options_moves_the_ports() {
    let mut f = frame(17, 0);
    f[14] = 0x46;
    f.splice(34..34, [1, 2, 3, 4]);
    let p = packet(&f);
    assert_eq!((p.ihl, p.src_port, p.dst_port), (24, 1000, 80));
}

#[test]
fn a_flow_reversed_twice_is_the_flow() {
    let k = flow_key(7, &packet(&frame(6, 0)));
    let r = k.reverse();
    assert_eq!(
        r,
        FlowKey {
            policy: 7,
            src: ip(10, 0, 0, 2),
            dst: ip(10, 0, 0, 1),
            src_port: 80,
            dst_port: 1000,
            proto: 6,
        }
    );
    assert_eq!(r.reverse(), k);
}

// ---------------------------------------------------------------------------
// The firewall
// ---------------------------------------------------------------------------

fn ingress() -> IngressAnswers {
    IngressAnswers {
        overlay_port: false,
        local_vtep: ip(192, 0, 2, 1),
        known_vtep: false,
        policy: Some(3),
        vni: None,
        log: false,
        stateful: false,
        blocklisted: false,
        rule: None,
        port_forward: false,
        flow_known: false,
        verdict: Verdict { action: ActionName::Pass, counter: 9 },
    }
}

#[test]
fn an_allowed_packet_goes_on_with_what_the_stages_need() {
    let f = frame(6, 0);
    let step = try_velstra(&f, &ingress());
    assert_eq!(
        step.next,
        Next::Forward(ForwardScratch {
            packet: packet(&f),
            policy: 3,
            vni: 0,
            fw_counter: Counter::Policy(9),
            port_forward: false,
            log: false,
        })
    );
    assert_eq!((step.log, step.remember, step.learned), (LogLine::Silent, None, None));
}

#[test]
fn the_blocklist_wins_over_an_established_flow() {
    let mut a = ingress();
    a.stateful = true;
    a.flow_known = true;
    a.blocklisted = true;
    a.log = true;
    let step = try_velstra(&frame(6, 0), &a);
    assert_eq!(step.next, Next::Finish(XdpAction::Drop, Counter::DroppedBlocklist));
    assert_eq!(step.log, LogLine::Dropped);
}

#[test]
fn an_established_flow_passes_what_the_policy_would_drop() {
    let mut a = ingress();
    a.stateful = true;
    a.verdict.action = ActionName::Drop;
    let f = frame(6, 0);
    assert_eq!(
        try_velstra(&f, &a).next,
        Next::Finish(XdpAction::Drop, Counter::Policy(9))
    );
    a.flow_known = true;
    match try_velstra(&f, &a).next {
        Next::Forward(s) => assert_eq!(s.fw_counter, Counter::EstablishedAllowed),
        other => panic!("{other:?}"),
    }
}

#[test]
fn a_forwarded_port_passes_without_a_rule() {
    let mut a = ingress();
    a.port_forward = true;
    a.verdict.action = ActionName::Drop;
    match try_velstra(&frame(6, 0), &a).next {
        Next::Forward(s) => assert_eq!((s.fw_counter, s.port_forward), (Counter::PassedRule, true)),
        other => panic!("{other:?}"),
    }
}

#[test]
fn a_new_flow_is_remembered_and_a_tenant_is_learned() {
    let mut a = ingress();
    a.stateful = true;
    a.vni = Some(5001);
    a.rule = Some(0x100);
    let f = frame(17, 0);
    let step = try_velstra(&f, &a);
    assert_eq!(step.remember, Some(flow_key(3, &packet(&f))));
    let learned = step.learned.unwrap();
    assert_eq!((learned.vni, learned.mac, learned.ip), (5001, HOST_A, ip(10, 0, 0, 1)));
    assert_eq!(step.log, LogLine::Allowed);
    // Neither ICMP nor a header with options is remembered.
    let mut icmp = f.clone();
    icmp[23] = 1;
    assert_eq!(try_velstra(&icmp, &a).remember, None);
}

#[test]
fn a_refused_packet_is_answered_later() {
    let mut a = ingress();
    a.verdict.action = ActionName::Reject;
    a.rule = Some(0x100);
    let f = frame(6, 0);
    let step = try_velstra(&f, &a);
    assert_eq!(step.next, Next::Refuse(packet(&f)));
    assert_eq!(step.log, LogLine::Refused);
}

#[test]
fn only_a_known_peer_may_tunnel_to_this_host() {
    let mut a = ingress();
    a.overlay_port = true;
    a.local_vtep = ip(10, 0, 0, 2);
    a.known_vtep = true;
    let f = frame(17, 0);
    assert_eq!(try_velstra(&f, &a).next, Next::Decap(packet(&f)));
    let dropped = Next::Finish(XdpAction::Drop, Counter::OverlayDropUntrusted);
    a.known_vtep = false;
    assert_eq!(try_velstra(&f, &a).next, dropped);
    a.known_vtep = true;
    a.local_vtep = ip(10, 0, 0, 3);
    assert_eq!(try_velstra(&f, &a).next, dropped);
}

#[test]
fn unreadable_frames_pass() {
    let malformed = Next::Finish(XdpAction::Pass, Counter::Malformed);
    assert_eq!(try_velstra(&vec![0; 5], &ingress()).next, malformed);
    let mut f = frame(6, 0);
    f[14] = 0x65;
    assert_eq!(try_velstra(&f, &ingress()).next, malformed);
    f[12] = 0x88;
    f[13] = 0xcc;
    assert_eq!(
        try_velstra(&f, &ingress()).next,
        Next::Finish(XdpAction::Pass, Counter::NonIpv4)
    );
    f[12] = 0x08;
    f[13] = 0x06;
    assert_eq!(try_velstra(&f, &ingress()).next, Next::Arp);
    assert_eq!(try_velstra(&ipv6_frame(6, &[]), &ingress()).next, Next::Ipv6);
}

#[test]
fn bit_eight_of_a_rule_asks_for_a_log_line() {
    assert!(!port_rule_logs(None));
    assert!(!port_rule_logs(Some(0xff)));
    assert!(port_rule_logs(Some(0x100)));
    assert!(port_rule_logs(Some(0x301)));
    assert!(!port_rule_logs(Some(0x200)));
}

fn ingress_v6() -> Ipv6Answers {
    Ipv6Answers {
        decap: Srv6DecapAnswers { enabled: false, vni: 0, local_sid: None, accepted: true },
        overlay: false,
        vni: 0,
        advertisement: None,
        log: false,
        rule: None,
        verdict: Verdict { action: ActionName::Pass, counter: 4 },
        translated: None,
    }
}

#[test]
fn an_ipv6_packet_goes_through_the_policy() {
    let mut f = ipv6_frame(6, &[0x03, 0xe8, 0, 80]);
    assert_eq!(ipv6_ports(&f), (1000, 80));
    assert_eq!(ipv6_ports(&ipv6_frame(58, &[0x03, 0xe8, 0, 80])), (0, 0));
    assert_eq!(ipv6_ports(&ipv6_frame(17, &[0x03, 0xe8, 0])), (0, 0));
    let mut a = ingress_v6();
    let step = try_velstra_v6(&mut f, &a);
    assert_eq!(
        (step.action, step.counter, step.log),
        (XdpAction::Pass, Counter::Policy(4), LogLine::Silent)
    );
    a.verdict.action = ActionName::Reject;
    a.log = true;
    let step = try_velstra_v6(&mut f, &a);
    assert_eq!(
        (step.action, step.counter, step.log),
        (XdpAction::Drop, Counter::Policy(4), LogLine::Dropped)
    );
    let step = try_velstra_v6(&mut vec![0; 53], &a);
    assert_eq!((step.action, step.counter), (XdpAction::Pass, Counter::Malformed));
}

#[test]
fn an_allowed_ipv6_packet_gets_its_inner_destination() {
    let mut f = ipv6_frame(6, &[1, 2, 3, 4]);
    let before = f.clone();
    let mut a = ingress_v6();
    a.translated = Some([0x77; 16]);
    try_velstra_v6(&mut f, &a);
    assert_eq!(f[38..54], [0x77; 16]);
    assert_eq!(f[..38], before[..38]);
    assert_eq!(f[54..], before[54..]);
}

#[test]
fn a_frame_for_a_local_sid_is_unwrapped_before_the_policy() {
    let mut f = ipv6_frame(143, &[1, 2, 3, 4]);
    let mut a = ingress_v6();
    a.verdict.action = ActionName::Drop;
    a.decap = Srv6DecapAnswers { enabled: true, vni: 0, local_sid: Some(true), accepted: true };
    let step = try_velstra_v6(&mut f, &a);
    assert_eq!((step.action, step.counter), (XdpAction::Pass, Counter::Srv6Decap));
    assert_eq!(f, vec![1, 2, 3, 4]);
}

fn egress() -> EgressAnswers {
    EgressAnswers {
        masquerade: None,
        policy: None,
        log: false,
        stateful: true,
        rule: None,
        verdict: Verdict { action: ActionName::Pass, counter: 1 },
    }
}

#[test]
fn a_packet_that_leaves_is_remembered_or_shot() {
    let f = frame(6, 0);
    let step = try_egress(&f, &egress());
    assert_eq!(step.next, EgressNext::Finish(TcAction::Accept));
    assert_eq!(step.remember, Some(flow_key(0, &packet(&f))));
    assert_eq!(step.counter, None);
    let mut a = egress();
    a.verdict.action = ActionName::Reject;
    a.rule = Some(0x100);
    let step = try_egress(&f, &a);
    assert_eq!(step.next, EgressNext::Finish(TcAction::Shot));
    assert_eq!((step.counter, step.log), (Some(Counter::EgressDropped), LogLine::Dropped));
    assert_eq!(step.remember, None);
}

#[test]
fn masquerading_comes_before_the_policy() {
    let mut a = egress();
    a.masquerade = Some(ip(203, 0, 113, 9));
    a.policy = Some(2);
    a.verdict.action = ActionName::Drop;
    let f = frame(6, 0);
    let step = try_egress(&f, &a);
    assert_eq!(step.next, EgressNext::Masquerade(packet(&f), 2, ip(203, 0, 113, 9)));
    assert_eq!(try_egress(&ipv6_frame(6, &[]), &a).next, EgressNext::Ipv6);
    assert_eq!(try_egress(&vec![0; 3], &a).next, EgressNext::Finish(TcAction::Accept));
}

#[test]
fn stages_follow_one_another() {
    let mut s = ForwardScratch {
        packet: packet(&frame(6, 0)),
        policy: 0,
        vni: 0,
        fw_counter: Counter::Policy(2),
        port_forward: true,
        log: false,
    };
    let mut order = vec![Stage::Srv6];
    let mut end = None;
    while end.is_none() {
        match try_velstra_forward(*order.last().unwrap(), Taken::Fall, &s) {
            Progress::Go(next) => order.push(next),
            Progress::Finish(action, counter) => end = Some((action, counter)),
        }
    }
    assert_eq!(
        order,
        vec![Stage::Srv6, Stage::Tunnel, Stage::PortForward, Stage::Balance, Stage::Route]
    );
    assert_eq!(end, Some((XdpAction::Pass, Counter::Policy(2))));
    s.port_forward = false;
    assert_eq!(
        try_velstra_forward(Stage::Tunnel, Taken::Fall, &s),
        Progress::Go(Stage::Balance)
    );
    assert_eq!(
        try_velstra_forward(Stage::Tunnel, Taken::Short, &s),
        Progress::Finish(XdpAction::Pass, Counter::Malformed)
    );
    assert_eq!(
        try_velstra_forward(
            Stage::Balance,
            Taken::Done(XdpAction::Pass, Counter::LoadBalanced),
            &s
        ),
        Progress::Finish(XdpAction::Pass, Counter::LoadBalanced)
    );
}

// ---------------------------------------------------------------------------
// Wrapping
// ---------------------------------------------------------------------------

fn encap(outer: usize) -> EncapAnswers {
    EncapAnswers {
        enabled: true,
        vni: 5001,
        found: true,
        max_inner_len: 1450,
        headers: vec![0xee; outer],
        accepted: true,
        redirects: true,
    }
}

#[test]
fn unwrapping_gives_back_the_wrapped_frame() {
    let inner = frame(6, 100);
    let mut f = inner.clone();
    assert_eq!(
        try_encap(&mut f, &encap(50)),
        Taken::Done(XdpAction::Redirect, Counter::OverlayEncap)
    );
    assert_eq!(f.len(), inner.len() + 50);
    assert_eq!(f[..50], [0xee; 50]);
    assert_eq!(try_decap(&mut f, 20, true), (XdpAction::Pass, Counter::OverlayDecap));
    assert_eq!(f, inner);

    assert_eq!(
        try_srv6_encap(&mut f, &encap(54)),
        Taken::Done(XdpAction::Redirect, Counter::Srv6Encap)
    );
    let a = Srv6DecapAnswers { enabled: true, vni: 0, local_sid: Some(true), accepted: true };
    assert_eq!(
        try_srv6_decap(&mut f, &a),
        Taken::Done(XdpAction::Pass, Counter::Srv6Decap)
    );
    assert_eq!(f, inner);
}

#[test]
fn a_frame_is_wrapped_only_where_it_should_be() {
    let inner = frame(6, 0);
    let mut f = inner.clone();
    let mut a = encap(50);
    a.enabled = false;
    assert_eq!(try_encap(&mut f, &a), Taken::Fall);
    a = encap(50);
    a.vni = 0;
    assert_eq!(try_encap(&mut f, &a), Taken::Fall);
    a = encap(50);
    a.found = false;
    assert_eq!(try_encap(&mut f, &a), Taken::Fall);
    a = encap(50);
    a.max_inner_len = inner.len() as u16 - 1;
    assert_eq!(
        try_encap(&mut f, &a),
        Taken::Done(XdpAction::Drop, Counter::OverlayTooBig)
    );
    a = encap(50);
    a.accepted = false;
    assert_eq!(
        try_encap(&mut f, &a),
        Taken::Done(XdpAction::Pass, Counter::Malformed)
    );
    assert_eq!(f, inner);
    a = encap(50);
    a.redirects = false;
    assert_eq!(
        try_encap(&mut f, &a),
        Taken::Done(XdpAction::Aborted, Counter::OverlayEncap)
    );
    assert_eq!(try_encap(&mut vec![0; 5], &encap(50)), Taken::Short);
}

#[test]
fn only_an_underlay_frame_for_a_local_sid_is_unwrapped() {
    let inner = vec![9u8; 60];
    let mut f = inner.clone();
    let yes = Srv6DecapAnswers { enabled: true, vni: 0, local_sid: Some(true), accepted: true };
    for a in [
        Srv6DecapAnswers { enabled: false, ..yes },
        Srv6DecapAnswers { vni: 1, ..yes },
        Srv6DecapAnswers { local_sid: None, ..yes },
        Srv6DecapAnswers { local_sid: Some(false), ..yes },
    ] {
        assert_eq!(try_srv6_decap(&mut f, &a), Taken::Fall);
    }
    assert_eq!(
        try_srv6_decap(&mut f, &Srv6DecapAnswers { accepted: false, ..yes }),
        Taken::Done(XdpAction::Pass, Counter::Malformed)
    );
    assert_eq!(f, inner);
    assert_eq!(try_decap(&mut f, 20, false), (XdpAction::Pass, Counter::Malformed));
    assert_eq!(try_decap(&mut f, 60, true), (XdpAction::Pass, Counter::Malformed));
    assert_eq!(f, inner);
}

#[test]
fn an_entry_for_the_mac_address_comes_first() {
    assert_eq!(choose_endpoint(Some(1), Some(2)), Some(1));
    assert_eq!(choose_endpoint(None, Some(2)), Some(2));
    assert_eq!(choose_endpoint::<u8>(None, None), None);
}

#[test]
fn entropy_mixes_the_destination_port_into_the_upper_half() {
    assert_eq!(flow_entropy(0x0000_1234, 80), 0x0050_1234);
    assert_eq!(flow_entropy(0xffff_0000, 0xffff), 0);
}

fn endpoint(n: u8) -> Endpoint {
    Endpoint { remote_vtep: ip(192, 0, 2, n), via_mac: HOST_B, out_ifindex: 2 }
}

#[test]
fn broadcast_is_copied_to_every_endpoint_of_the_segment() {
    let mut f = frame(17, 0);
    f[..6].copy_from_slice(&[0xff; 6]);
    let a = BumAnswers {
        enabled: true,
        vni: 0x10_0000,
        known_mac: true,
        flood: Some(vec![endpoint(1), endpoint(2)]),
        max_inner_len: 1450,
    };
    let plan = try_bum(&f, &a);
    assert_eq!(plan.endpoints, vec![endpoint(1), endpoint(2)]);
    assert_eq!(plan.entropy, 0x10_0000 ^ 0xff00 ^ 0xff);
}

#[test]
fn known_unicast_and_big_frames_are_not_copied() {
    let f = frame(17, 0);
    let answers = |known_mac: bool, vni: u32, enabled: bool, max_inner_len: u16| BumAnswers {
        enabled,
        vni,
        known_mac,
        flood: Some(vec![endpoint(1)]),
        max_inner_len,
    };
    assert_eq!(try_bum(&f, &answers(false, 1, true, 1450)).endpoints.len(), 1);
    assert!(try_bum(&f, &answers(true, 1, true, 1450)).endpoints.is_empty());
    assert!(try_bum(&f, &answers(false, 0, true, 1450)).endpoints.is_empty());
    assert!(try_bum(&f, &answers(false, 1, false, 1450)).endpoints.is_empty());
    assert!(try_bum(&f, &answers(false, 1, true, 41)).endpoints.is_empty());
    let mut none = answers(false, 1, true, 1450);
    none.flood = None;
    assert!(try_bum(&f, &none).endpoints.is_empty());
}

#[test]
fn at_most_sixteen_copies_are_made() {
    let list: Vec<Endpoint> = (1..=20).map(endpoint).collect();
    let a = BumAnswers {
        enabled: true,
        vni: 1,
        known_mac: false,
        flood: Some(list.clone()),
        max_inner_len: 1450,
    };
    assert_eq!(try_bum(&frame(17, 0), &a).endpoints, list[..16].to_vec());
}

// ---------------------------------------------------------------------------
// Answers
// ---------------------------------------------------------------------------

fn arp_request() -> Vec<u8> {
    let mut f: Vec<u8> = Vec::new();
    f.extend_from_slice(&[0xff; 6]);
    f.extend_from_slice(&HOST_A);
    f.extend_from_slice(&[0x08, 0x06, 0, 1, 8, 0, 6, 4, 0, 1]);
    f.extend_from_slice(&HOST_A);
    f.extend_from_slice(&[10, 0, 0, 1]);
    f.extend_from_slice(&[0; 6]);
    f.extend_from_slice(&[10, 0, 0, 2]);
    f
}

#[test]
fn an_arp_request_for_a_known_address_is_answered() {
    let mut f = arp_request();
    assert_eq!(arp_target(&f), Some(ip(10, 0, 0, 2)));
    assert_eq!(
        try_arp(&mut f, true, 5001, Some(HOST_B)),
        Taken::Done(XdpAction::Tx, Counter::ArpSuppressed)
    );
    let mut want: Vec<u8> = Vec::new();
    want.extend_from_slice(&HOST_A);
    want.extend_from_slice(&HOST_B);
    want.extend_from_slice(&[0x08, 0x06, 0, 1, 8, 0, 6, 4, 0, 2]);
    want.extend_from_slice(&HOST_B);
    want.extend_from_slice(&[10, 0, 0, 2]);
    want.extend_from_slice(&HOST_A);
    want.extend_from_slice(&[10, 0, 0, 1]);
    assert_eq!(f, want);
    // The reply is no request.
    assert_eq!(try_arp(&mut f, true, 5001, Some(HOST_B)), Taken::Fall);
}

#[test]
fn other_arp_frames_are_left_alone() {
    let before = arp_request();
    let mut f = before.clone();
    assert_eq!(try_arp(&mut f, false, 5001, Some(HOST_B)), Taken::Fall);
    assert_eq!(try_arp(&mut f, true, 0, Some(HOST_B)), Taken::Fall);
    assert_eq!(try_arp(&mut f, true, 5001, None), Taken::Fall);
    assert_eq!(f, before);
    let mut short = before[..41].to_vec();
    assert_eq!(arp_target(&short), None);
    assert_eq!(try_arp(&mut short, true, 5001, Some(HOST_B)), Taken::Short);
}

fn solicitation() -> Vec<u8> {
    let mut body = vec![135, 0, 0, 0, 0, 0, 0, 0];
    body.extend_from_slice(&[0x44; 16]);
    body.extend_from_slice(&[1, 1]);
    body.extend_from_slice(&HOST_A);
    ipv6_frame(58, &body)
}

fn advertisement() -> NaReply {
    NaReply {
        eth_dst: HOST_A,
        eth_src: HOST_B,
        ipv6_src: [0x44; 16],
        ipv6_dst: [0x11; 16],
        na_msg: [0x88; 32],
    }
}

#[test]
fn a_neighbour_solicitation_for_a_known_address_is_answered() {
    let mut f = solicitation();
    assert_eq!(nd_target(&f), Some(vec![0x44; 16]));
    assert_eq!(
        try_nd(&mut f, true, 5001, &Some(advertisement())),
        Taken::Done(XdpAction::Tx, Counter::NdSuppressed)
    );
    assert_eq!(f[..6], HOST_A);
    assert_eq!(f[6..12], HOST_B);
    assert_eq!(f[18..20], [0, 32]);
    assert_eq!(f[22..38], [0x44; 16]);
    assert_eq!(f[38..54], [0x11; 16]);
    assert_eq!(f[54..86], [0x88; 32]);
}

#[test]
fn other_neighbour_messages_are_left_alone() {
    let before = solicitation();
    let reply = Some(advertisement());
    let mut f = before.clone();
    assert_eq!(try_nd(&mut f, true, 5001, &None), Taken::Fall);
    assert_eq!(try_nd(&mut f, false, 5001, &reply), Taken::Fall);
    assert_eq!(try_nd(&mut f, true, 0, &reply), Taken::Fall);
    assert_eq!(f, before);
    let mut other = before.clone();
    other[54] = 136;
    assert_eq!(try_nd(&mut other, true, 5001, &reply), Taken::Fall);
    for len in [53, 77, 85] {
        let mut short = before[..len].to_vec();
        assert_eq!(try_nd(&mut short, true, 5001, &reply), Taken::Fall);
        assert_eq!(short, before[..len]);
    }
    assert_eq!(nd_target(&before[..77].to_vec()), None);
}

#[test]
fn prefixes_are_translated_in_place() {
    let before = ipv6_frame(6, &[1]);
    let mut f = before.clone();
    npt66_egress_v6(&mut f, Some([0x99; 16]));
    assert_eq!(f[22..38], [0x99; 16]);
    assert!(npt66_ingress_v6(&mut f, Some([0x98; 16])));
    assert_eq!(f[38..54], [0x98; 16]);
    assert_eq!(f[54..], before[54..]);
    let mut g = before.clone();
    npt66_egress_v6(&mut g, None);
    assert!(npt66_ingress_v6(&mut g, None));
    assert_eq!(g, before);
    assert!(!npt66_ingress_v6(&mut before[..53].to_vec(), Some([0; 16])));
}

#[test]
fn a_segment_is_refused_with_a_reset() {
    let f = frame(6, 7);
    let p = packet(&f);
    assert_eq!(
        reject_packet(&f, &p),
        // Seven bytes of payload, and one for the SYN.
        Refusal::Reset(Segment { seq: 0x0102_0304, ack: 0x0506_0708, flags: 2, seg_len: 8 })
    );
    let mut g = f.clone();
    let rst = TcpRst {
        seq: 0,
        ack: 0x0102_030c,
        flags: 0x14,
        ip_checksum: 0xaaaa,
        tcp_checksum: 0xbbbb,
    };
    assert_eq!(write_rst(&mut g, &p, &rst), (XdpAction::Tx, Some(Counter::Rejected)));
    assert_eq!(g[..6], HOST_A);
    assert_eq!(g[6..12], HOST_B);
    assert_eq!(g[16..18], [0, 40]);
    assert_eq!(g[18..22], [0; 4]);
    assert_eq!(g[22..26], [64, 6, 0xaa, 0xaa]);
    let q = packet(&g);
    assert_eq!((q.src, q.src_port), (p.dst, p.dst_port));
    assert_eq!((q.dst, q.dst_port), (p.src, p.src_port));
    assert_eq!(g[38..54], [0, 0, 0, 0, 1, 2, 3, 0x0c, 0x50, 0x14, 0, 0, 0xbb, 0xbb, 0, 0]);
    assert_eq!(g[54..], f[54..]);
}

#[test]
fn a_reset_is_not_answered() {
    let mut f = frame(6, 0);
    f[47] = 4;
    assert_eq!(reject_packet(&f, &packet(&f)), Refusal::Silent);
    let mut icmp = frame(17, 0);
    icmp[23] = 1;
    assert_eq!(reject_packet(&icmp, &packet(&icmp)), Refusal::Silent);
    let udp = frame(17, 0);
    assert_eq!(reject_packet(&udp, &packet(&udp)), Refusal::Unreachable);
    let short = frame(6, 0)[..47].to_vec();
    assert_eq!(reject_packet(&short, &packet(&short)), Refusal::Short);
    let mut options = frame(6, 0);
    options[14] = 0x46;
    assert_eq!(reject_packet(&options, &packet(&options)), Refusal::Silent);
    let mut tiny = frame(6, 0)[..53].to_vec();
    let p = packet(&tiny);
    let rst = TcpRst { seq: 0, ack: 0, flags: 0, ip_checksum: 0, tcp_checksum: 0 };
    assert_eq!(write_rst(&mut tiny, &p, &rst), (XdpAction::Drop, None));
}

/// The one's-complement sum of a message.
fn sum16(bytes: &[u8]) -> u32 {
    let mut sum: u32 = bytes
        .chunks(2)
        .map(|c| u32::from(u16::from_be_bytes([c[0], c[1]])))
        .sum();
    while sum > 0xffff {
        sum = (sum & 0xffff) + (sum >> 16);
    }
    sum
}

#[test]
fn a_datagram_is_refused_with_an_icmp_message() {
    let f = frame(17, 0);
    let p = packet(&f);
    let mut g = f.clone();
    assert_eq!(
        reject_icmp_unreachable(&mut g, &p, 0x7777, true),
        (XdpAction::Tx, Some(Counter::Rejected))
    );
    assert_eq!(g.len(), f.len() + 28);
    assert_eq!(g[..6], HOST_A);
    assert_eq!(g[6..12], HOST_B);
    assert_eq!(g[12..24], [0x08, 0, 0x45, 0, 0, 56, 0, 0, 0, 0, 64, 1]);
    assert_eq!(g[24..26], [0x77, 0x77]);
    assert_eq!(g[26..34], [10, 0, 0, 2, 10, 0, 0, 1]);
    assert_eq!(g[34..36], [3, 3]);
    // The message quotes the refused packet from its IPv4 header on.
    assert_eq!(g[42..70], f[14..42]);
    assert_eq!(sum16(&g[34..70]), 0xffff);
}

#[test]
fn an_icmp_message_needs_room_and_a_datagram() {
    let f = frame(17, 0);
    let p = packet(&f);
    let mut g = f.clone();
    assert_eq!(
        reject_icmp_unreachable(&mut g, &p, 0, false),
        (XdpAction::Drop, Some(Counter::Malformed))
    );
    assert_eq!(g, f);
    let mut tcp = frame(6, 0);
    let p6 = packet(&tcp);
    assert_eq!(
        reject_icmp_unreachable(&mut tcp, &p6, 0, true),
        (XdpAction::Drop, Some(Counter::Rejected))
    );
    let mut short = f[..41].to_vec();
    assert_eq!(reject_icmp_unreachable(&mut short, &p, 0, true), (XdpAction::Drop, None));
}

#[test]
fn a_routed_frame_is_rewritten_and_sent() {
    let before = frame(6, 0);
    let mut f = before.clone();
    let mut w = Rewrite {
        dst_mac: [4; 6],
        src_mac: [5; 6],
        new_ttl: Some(62),
        new_checksum: 0xac_cd,
        out_ifindex: 7,
    };
    assert_eq!(
        forward(&mut f, &w, true),
        Taken::Done(XdpAction::Redirect, Counter::Forwarded)
    );
    assert_eq!(f[..12], [4, 4, 4, 4, 4, 4, 5, 5, 5, 5, 5, 5]);
    assert_eq!(f[22..26], [62, 6, 0xac, 0xcd]);
    assert_eq!(f[26..], before[26..]);
    // A bridged frame keeps its time to live.
    w.new_ttl = None;
    let mut g = before.clone();
    assert_eq!(
        forward(&mut g, &w, false),
        Taken::Done(XdpAction::Aborted, Counter::Forwarded)
    );
    assert_eq!(g[12..], before[12..]);
    assert_eq!(forward(&mut vec![0; 11], &w, true), Taken::Short);
}

// ---------------------------------------------------------------------------
// Translation
// ---------------------------------------------------------------------------

fn rewrite_to(ip_: Ipv4Addr, port: u16) -> Nat {
    Nat {
        new_ip: ip_,
        new_port: port,
        rewrite_port: true,
        new_ip_checksum: 0x0101,
        new_l4_checksum: 0x0202,
        rewrite_l4_checksum: true,
    }
}

#[test]
fn a_translation_changes_one_end_and_the_checksums() {
    let before = frame(6, 0);
    let mut f = before.clone();
    assert_eq!(l4_checksum(&f, 6), Some(0x1122));
    assert!(apply_nat(&mut f, &rewrite_to(ip(10, 9, 9, 9), 8080), false, 6));
    let p = packet(&f);
    assert_eq!((p.dst, p.dst_port), (ip(10, 9, 9, 9), 8080));
    assert_eq!((p.src, p.src_port), (ip(10, 0, 0, 1), 1000));
    assert_eq!(p.checksum, 0x0101);
    assert_eq!(l4_checksum(&f, 6), Some(0x0202));
    let mut g = before.clone();
    assert_eq!(
        translate(
            &mut g,
            &rewrite_to(ip(10, 9, 9, 9), 8080),
            &Some(rewrite_to(ip(10, 8, 8, 8), 9000)),
            false,
            6,
            Counter::LbEstablished
        ),
        Taken::Done(XdpAction::Pass, Counter::LbEstablished)
    );
    let q = packet(&g);
    assert_eq!((q.dst, q.dst_port), (ip(10, 9, 9, 9), 8080));
    assert_eq!((q.src, q.src_port), (ip(10, 8, 8, 8), 9000));
}

#[test]
fn a_translation_may_keep_the_port_and_the_checksum() {
    let mut f = frame(17, 0);
    let n = Nat {
        rewrite_port: false,
        rewrite_l4_checksum: false,
        ..rewrite_to(ip(10, 9, 9, 9), 8080)
    };
    assert!(apply_nat(&mut f, &n, true, 17));
    let p = packet(&f);
    assert_eq!((p.src, p.src_port), (ip(10, 9, 9, 9), 1000));
    assert_eq!(l4_checksum(&f, 17), Some(0x3344));
    let mut short = frame(6, 0)[..51].to_vec();
    assert!(!apply_nat(&mut short, &n, true, 6));
    assert_eq!(l4_checksum(&short, 6), None);
    assert_eq!(translate(&mut short, &n, &None, true, 6, Counter::LbReverse), Taken::Short);
}

const NOTHING: LbAnswers =
    LbAnswers { known: None, known_router: None, service: None, backend: None };

#[test]
fn a_new_flow_to_a_service_goes_to_the_picked_server() {
    let f = frame(6, 0);
    let p = packet(&f);
    let b = target(ip(10, 1, 0, 5), 8080);
    let a = LbAnswers {
        service: Some(ServiceValue { backend_start: 4, backend_count: 2 }),
        backend: Some(b),
        ..NOTHING
    };
    let (flow, first) = match try_load_balance(&f, 9, &p, &a) {
        NatPlan::New {
            flow,
            allow: None,
            first,
            second: None,
            counter: Counter::LoadBalanced,
        } => (flow, first),
        other => panic!("{other:?}"),
    };
    assert_eq!(
        first,
        NatRequest { old: target(ip(10, 0, 0, 2), 80), new: b, reverse: false }
    );
    assert_eq!(flow.forward_key, flow_key(9, &p));
    assert_eq!(flow.forward_state, FlowState { to: b, reverse: false, second: None });
    assert_eq!(
        flow.reverse_key,
        FlowKey {
            policy: 9,
            src: ip(10, 1, 0, 5),
            dst: ip(10, 0, 0, 1),
            src_port: 8080,
            dst_port: 1000,
            proto: 6,
        }
    );
    assert_eq!(
        after_reply_recorded(&flow, true),
        Some((flow.forward_key, flow.forward_state))
    );
    // Nothing was recorded: the next packet starts the flow again.
    assert_eq!(after_reply_recorded(&flow, false), None);
    assert!(matches!(
        try_load_balance(&f, 9, &p, &a),
        NatPlan::New { flow: again, .. } if again == flow
    ));
    // A later packet keeps the server, and the reply gets the service's address back.
    let known = LbAnswers { known: Some(flow.forward_state), ..a };
    assert_eq!(
        try_load_balance(&f, 9, &p, &known),
        NatPlan::Known { first, second: None, counter: Counter::LbEstablished }
    );
    let reply = Packet {
        src: ip(10, 1, 0, 5),
        dst: ip(10, 0, 0, 1),
        src_port: 8080,
        dst_port: 1000,
        ..p
    };
    let known = LbAnswers { known: Some(flow.reverse_state), ..NOTHING };
    assert_eq!(
        try_load_balance(&f, 9, &reply, &known),
        NatPlan::Known {
            first: NatRequest { old: b, new: target(ip(10, 0, 0, 2), 80), reverse: true },
            second: None,
            counter: Counter::LbReverse,
        }
    );
    assert_eq!(backend_index(&ServiceValue { backend_start: 4, backend_count: 2 }, 1), 5);
}

#[test]
fn packets_that_are_for_no_service_fall_through() {
    let f = frame(6, 0);
    let p = packet(&f);
    assert_eq!(try_load_balance(&f, 9, &p, &NOTHING), NatPlan::Fall(None));
    let empty = LbAnswers {
        service: Some(ServiceValue { backend_start: 0, backend_count: 0 }),
        ..NOTHING
    };
    assert_eq!(
        try_load_balance(&f, 9, &p, &empty),
        NatPlan::Fall(Some(Counter::LbNoBackend))
    );
    let icmp = Packet { proto: 1, ..p };
    assert_eq!(try_load_balance(&f, 9, &icmp, &NOTHING), NatPlan::Fall(None));
    assert_eq!(
        try_load_balance(&f[..51].to_vec(), 9, &p, &NOTHING),
        NatPlan::Short
    );
    // What port forwarding tracks counts for other policies only.
    let state = FlowState { to: target(ip(10, 1, 0, 5), 0), reverse: false, second: None };
    let router = LbAnswers { known_router: Some(state), ..NOTHING };
    assert_eq!(try_load_balance(&f, 0, &p, &router), NatPlan::Fall(None));
    assert!(matches!(try_load_balance(&f, 9, &p, &router), NatPlan::Known { .. }));
}

#[test]
fn a_forwarded_port_translates_both_ends_of_a_hairpin() {
    let f = frame(6, 0);
    let p = packet(&f);
    let mut t = PortFwd {
        to: target(ip(10, 5, 0, 1), 0),
        match_dst: ip(0, 0, 0, 0),
        snat_ip: ip(0, 0, 0, 0),
    };
    match try_port_forward(&f, &p, &t, false) {
        NatPlan::New { flow, allow, first, second, counter } => {
            assert_eq!(allow, Some(flow.reverse_key));
            assert_eq!(counter, Counter::LoadBalanced);
            assert_eq!(first.new, t.to);
            assert_eq!(second, None);
            assert_eq!(flow.reverse_key.src_port, 80);
            assert_eq!(flow.reverse_key.dst, ip(10, 0, 0, 1));
            assert_eq!(flow.reverse_key.policy, 0);
        }
        other => panic!("{other:?}"),
    }
    t.snat_ip = ip(10, 5, 0, 254);
    match try_port_forward(&f, &p, &t, false) {
        NatPlan::New { flow, second, .. } => {
            assert_eq!(
                second,
                Some(NatRequest {
                    old: target(ip(10, 0, 0, 1), 1000),
                    new: target(ip(10, 5, 0, 254), 0),
                    reverse: true,
                })
            );
            assert_eq!(flow.reverse_key.dst, ip(10, 5, 0, 254));
            assert_eq!(flow.reverse_state.second, Some(target(ip(10, 0, 0, 1), 0)));
            assert_eq!(flow.forward_state.second, Some(target(ip(10, 5, 0, 254), 0)));
        }
        other => panic!("{other:?}"),
    }
    t.match_dst = ip(203, 0, 113, 1);
    assert_eq!(try_port_forward(&f, &p, &t, false), NatPlan::Fall(None));
    t.match_dst = ip(10, 0, 0, 2);
    assert!(matches!(try_port_forward(&f, &p, &t, false), NatPlan::New { .. }));
    assert_eq!(try_port_forward(&f, &p, &t, true), NatPlan::Fall(None));
    assert_eq!(try_port_forward(&f[..51].to_vec(), &p, &t, false), NatPlan::Short);
}

#[test]
fn masqueraded_ports_start_from_a_hash_of_the_flow() {
    // 10.0.0.1 is 0x0100000a with the first octet least significant.
    let h = 0x0100_000au32 ^ 0x000a_0200 ^ (1000 << 16) ^ 80;
    let seed = napt_seed(ip(10, 0, 0, 1), ip(10, 0, 0, 2), 1000, 80);
    assert_eq!(seed, h.wrapping_mul(2654435761));
    assert_eq!(napt_port(0, 0), 32768);
    assert_eq!(napt_port(32767, 0), 65535);
    assert_eq!(napt_port(32767, 1), 32768);
    assert_eq!(napt_port(u32::MAX, 1), 32768);
}

#[test]
fn the_first_free_port_is_taken() {
    let src = target(ip(10, 0, 0, 1), 1000);
    let other = Some(FlowState {
        to: target(ip(10, 0, 0, 7), 1000),
        reverse: false,
        second: None,
    });
    let own = Some(FlowState { to: src, reverse: false, second: None });
    let mut probes = vec![None; 8];
    assert_eq!(choose_port(5, &probes, src), 32773);
    probes[0] = other;
    probes[1] = own;
    assert_eq!(choose_port(5, &probes, src), 32774);
    // A flow keeps its port once an earlier one becomes free.
    probes[0] = None;
    assert_eq!(choose_port(5, &probes, src), 32774);
    probes[1] = other;
    probes[0] = other;
    assert_eq!(choose_port(5, &probes, src), 32775);
    assert_eq!(choose_port(5, &vec![other; 8], src), 1000);
}

#[test]
fn a_masqueraded_reply_goes_back_to_the_client() {
    let f = frame(17, 0);
    let p = packet(&f);
    let wan = ip(203, 0, 113, 9);
    let port = napt_port(napt_seed(p.src, p.dst, p.src_port, p.dst_port), 0);
    let client = FlowState { to: target(p.src, 1000), reverse: false, second: None };
    let reply = FlowKey {
        policy: 4,
        src: p.dst,
        dst: wan,
        src_port: 80,
        dst_port: port,
        proto: 17,
    };
    assert_eq!(
        masquerade_egress(4, &p, wan, &vec![None; 8]),
        Masquerade::Translated { port, reply, client }
    );
    let q = Packet { src: p.dst, dst: wan, src_port: 80, dst_port: port, ..p };
    assert_eq!(flow_key(4, &q), reply);
    assert_eq!(
        try_load_balance(&f, 4, &q, &LbAnswers { known: Some(client), ..NOTHING }),
        NatPlan::Known {
            first: NatRequest {
                old: target(wan, port),
                new: target(p.src, 1000),
                reverse: false,
            },
            second: None,
            counter: Counter::LbEstablished,
        }
    );
    assert_eq!(
        masquerade_egress(4, &Packet { src: wan, ..p }, wan, &vec![None; 8]),
        Masquerade::Unchanged
    );
    assert_eq!(
        masquerade_egress(4, &Packet { proto: 1, ..p }, wan, &vec![None; 8]),
        Masquerade::Unchanged
    );
}

#[test]
fn the_source_is_rewritten_step_by_step() {
    let a = target(ip(10, 0, 0, 1), 1000);
    let b = target(ip(203, 0, 113, 9), 40000);
    assert_eq!(
        snat_tc(a, b, 6, 0),
        vec![
            SkbStep::L4Address { at: 50, from: a.ip, to: b.ip },
            SkbStep::L3Address { at: 24, from: a.ip, to: b.ip },
            SkbStep::StoreAddress { at: 26, to: b.ip },
            SkbStep::L4Port { at: 50, from: 1000, to: 40000 },
            SkbStep::StorePort { at: 34, to: 40000 },
        ]
    );
    // A datagram without a checksum gets none.
    assert_eq!(
        snat_tc(a, b, 17, 0),
        vec![
            SkbStep::L3Address { at: 24, from: a.ip, to: b.ip },
            SkbStep::StoreAddress { at: 26, to: b.ip },
            SkbStep::StorePort { at: 34, to: 40000 },
        ]
    );
    assert_eq!(
        snat_tc(a, target(b.ip, 1000), 17, 5),
        vec![
            SkbStep::L4Address { at: 40, from: a.ip, to: b.ip },
            SkbStep::L3Address { at: 24, from: a.ip, to: b.ip },
            SkbStep::StoreAddress { at: 26, to: b.ip },
        ]
    );
}

#[test]
fn tables_are_asked_under_the_packets_policy() {
    let f = frame(6, 0);
    let p = packet(&f);
    let k = ingress_keys(9, &p);
    assert_eq!((k.overlay_port, k.vtep), (80, p.src));
    assert_eq!(k.blocklist, ScopedAddr { scope: 9, addr: p.src });
    assert_eq!(k.rule, RuleKey { policy: 9, proto: 6, port: 80, src: p.src });
    assert_eq!(k.port_forward, PortKey { policy: 9, proto: 6, port: 80 });
    assert_eq!(k.flow, flow_key(9, &p));
    let out = egress_keys(9, &p);
    assert_eq!(out.blocklist, ScopedAddr { scope: 9, addr: p.dst });
    assert_eq!(out.rule, k.rule);
    assert_eq!(route_key(9, &p), out.blocklist);
    let e = encap_keys(100, &f, &p).unwrap();
    assert_eq!(e.mac, MacKey { vni: 100, mac: HOST_B });
    assert_eq!(e.address, ScopedAddr { scope: 100, addr: p.dst });
    assert_eq!(mac_key(100, &vec![1, 2, 3, 4, 5]), None);
    let b = balance_keys(9, &p);
    assert_eq!(b.service, ServiceKey { policy: 9, vip: p.dst, port: 80, proto: 6 });
    assert_eq!(b.router_flow, Some(port_forward_flow(&p)));
    assert_eq!(balance_keys(0, &p).router_flow, None);
    assert_eq!(session_key(&p), SessionKey { src: target(p.src, 1000), proto: 6 });
}

#[test]
fn an_ipv6_packet_is_asked_for_under_any_source() {
    let mut f = vec![0u8; 62];
    f[20] = 17;
    f[22] = 0xfd;
    f[38] = 0xfe;
    put16(&mut f, 54, 4000);
    put16(&mut f, 56, 53);
    let k = ipv6_keys(3, &f).unwrap();
    assert_eq!((k.src.len(), k.src[0], k.dst[0]), (16, 0xfd, 0xfe));
    assert_eq!(k.rule, RuleKey { policy: 3, proto: 17, port: 53, src: ip(0, 0, 0, 0) });
    assert_eq!(ipv6_keys(3, &f[..53].to_vec()), None);
}

#[test]
fn every_port_that_is_tried_is_asked_for() {
    let p = packet(&frame(17, 0));
    let wan = ip(203, 0, 113, 9);
    let seed = napt_seed(p.src, p.dst, p.src_port, p.dst_port);
    let keys = probe_keys(4, &p, wan);
    assert_eq!(keys.len(), 8);
    for (i, k) in keys.iter().enumerate() {
        assert_eq!(k.dst_port, napt_port(seed, i as u16));
        assert_eq!((k.policy, k.src, k.dst, k.src_port), (4, p.dst, wan, 80));
    }
    match masquerade_egress(4, &p, wan, &vec![None; 8]) {
        Masquerade::Translated { reply, .. } => assert_eq!(reply, keys[0]),
        other => panic!("{other:?}"),
    }
}

#[test]
fn a_second_translation_starts_from_the_checksums_of_the_first() {
    let f = frame(6, 0);
    let p = packet(&f);
    let request = NatRequest {
        old: target(p.dst, 80),
        new: target(ip(10, 9, 9, 9), 8080),
        reverse: false,
    };
    let first = first_inputs(&f, &p, &request).unwrap();
    assert_eq!((first.ip_checksum, first.l4_checksum, first.proto), (0xabcd, 0x1122, 6));
    let n = rewrite_to(ip(10, 9, 9, 9), 8080);
    let second = second_inputs(&n, &p, &request);
    assert_eq!((second.ip_checksum, second.l4_checksum), (0x0101, 0x0202));
    assert_eq!(first_inputs(&f[..51].to_vec(), &p, &request), None);
}

#[test]
fn a_short_frame_leaves_unmasqueraded() {
    let f = frame(17, 0);
    let p = packet(&f);
    let to = target(ip(203, 0, 113, 9), 40000);
    let steps = rewrite_source(&f, &p, to).unwrap();
    assert_eq!(steps, snat_tc(target(p.src, 1000), to, 17, 0x3344));
    assert_eq!(rewrite_source(&f[..41].to_vec(), &p, to), None);
    assert_eq!(masquerade_outcome(true), (TcAction::Accept, Some(Counter::EgressMasqueraded)));
    assert_eq!(masquerade_outcome(false), (TcAction::Accept, None));
}

#[test]
fn an_expired_packet_is_not_routed() {
    let mut f = frame(6, 0);
    let before = f.clone();
    assert_eq!(
        route_frame(&mut f, &ForwardOutcome::TtlExceeded, true),
        Taken::Done(XdpAction::Drop, Counter::ForwardTtlExceeded)
    );
    assert_eq!(route_frame(&mut f, &ForwardOutcome::Pass, true), Taken::Fall);
    assert_eq!(f, before);
    let w = Rewrite {
        dst_mac: HOST_A,
        src_mac: HOST_B,
        new_ttl: Some(62),
        new_checksum: 7,
        out_ifindex: 3,
    };
    assert_eq!(
        route_frame(&mut f, &ForwardOutcome::Redirect(w), true),
        Taken::Done(XdpAction::Redirect, Counter::Forwarded)
    );
    assert_eq!((f[22], packet(&f).checksum), (62, 7));
    assert_eq!(transmitted(), (Counter::TxPackets, 1));
    assert_eq!(received(&f), [(Counter::RxPackets, 1), (Counter::RxBytes, f.len() as u64)]);
}
