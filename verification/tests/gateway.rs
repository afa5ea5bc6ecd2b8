//! The HTTP gateway and the administrative services.

use velstra::admin::{accept, answer, is_leader, route, OrchCall, OrchReply, Route};
use velstra::audit::{Audit, AUDIT_RING_CAP};
use velstra::authz::{Authz, Caller};
use velstra::config::{ActionName, EncapName, PortRule, ProtoName};
use velstra::messages::{
    action_from_proto, action_to_proto, config_rule_from_proto, list_ports, list_security_groups,
    proto_rule_from_config, raft_host_spec, raft_subnet_spec, HostMessage, NetworkMessage,
    RuleMessage, SecurityGroupMessage, SubnetMessage, WireAction,
};
use velstra::ipam::AddressBook;
use velstra::orchestrator::{security_group_policy_id, Topology};
use velstra::resources::{
    get_floating_ip, get_host, get_network, get_port, get_security_group, get_subnet, list_hosts,
    list_floating_ips, list_networks, ApiError,
};
use velstra::rest::{
    begin, bearer, caller, created_port, ct_eq, finish, parse_action, parse_encap, parse_proto,
    request, returned_floating_ip, status_to_api, Code, CreateHostReq, CreateNetworkReq,
    CreatePortReq, CreateSecurityGroupReq, CreateSubnetReq, RestCall, RuleReq, Status,
};
use velstra::sorted::{SortedMap, TextKey};
use velstra::startup::{gateway_policy, parse_tokens};
use velstra::store::{
    apply, subnet_from_spec, FloatingIp, FloatingIpRecord, SubnetSpec, TopoRequest,
    TopoResponse,
};

const ADMIN_TOKEN: &str = "admin-secret-token";
const NODE_TOKEN: &str = "node-secret-token";

struct Gateway {
    topo: Topology,
    book: AddressBook,
    authz: Authz,
    tokens: SortedMap<TextKey, String>,
    audit: Audit,
    now: u64,
}

impl Gateway {
    fn new() -> Gateway {
        let texts =
            vec![format!("ops-admin={ADMIN_TOKEN}"), format!("web-1={NODE_TOKEN}")];
        Gateway {
            topo: Topology::new(),
            book: AddressBook::new(),
            authz: gateway_policy(true, vec!["ops-admin".to_string()]),
            tokens: parse_tokens(&texts).unwrap(),
            audit: Audit::new(),
            now: 1_700_000_000_000,
        }
    }

    /// One request, from the header to the answer.
    fn call(&mut self, token: Option<&str>, call: RestCall) -> Result<TopoResponse, ApiError> {
        self.now += 1;
        let header = token.map(|t| format!("Bearer {t}"));
        let who = caller(&self.tokens, header.as_deref());
        let req = begin(&self.authz, &who, &call, &mut self.audit, self.now)?;
        let outcome = Ok(apply(&mut self.topo, &mut self.book, &req));
        finish(&who, &call, outcome, &mut self.audit, self.now)
    }
}

fn network(vni: u32, name: &str, subnet: &str, drop_icmp: bool) -> RestCall {
    RestCall::CreateNetwork(CreateNetworkReq {
        vni,
        name: name.into(),
        subnet: subnet.into(),
        default_action: None,
        drop_icmp,
    })
}

fn host(id: &str, vtep: &str, mac: &str) -> RestCall {
    RestCall::CreateHost(CreateHostReq {
        id: id.into(),
        vtep: vtep.into(),
        underlay_iface: "eth0".into(),
        underlay_mac: mac.into(),
        encap: None,
        udp_port: 0,
        underlay_mtu: 0,
    })
}

fn subnet(id: &str, vni: u32, cidr: &str) -> RestCall {
    RestCall::CreateSubnet(CreateSubnetReq {
        id: id.into(),
        vni,
        cidr: cidr.into(),
        gateway: None,
        pool_start: None,
        pool_end: None,
        enable_dhcp: false,
    })
}

fn port(network: u32, host: &str, tap: &str) -> RestCall {
    RestCall::CreatePort(CreatePortReq {
        network,
        host: host.into(),
        tap: tap.into(),
        ip: None,
        policy: None,
    })
}

#[test]
fn requests_are_authorized_applied_and_recorded() {
    let mut g = Gateway::new();
    let (admin, node) = (Some(ADMIN_TOKEN), Some(NODE_TOKEN));

    g.call(admin, network(100, "tenant-a", "10.50.0.0/24", true)).unwrap();
    let created = get_network(&g.topo, 100).unwrap();
    assert_eq!(created.vni, 100);
    assert_eq!(created.name, "tenant-a");
    assert_eq!(created.subnet, "10.50.0.0/24");
    assert!(created.drop_icmp);
    assert_eq!(list_networks(g.topo.networks()).len(), 1);
    let missing = get_network(&g.topo, 999).unwrap_err();
    assert_eq!(missing.status, 404);
    assert!(missing.message.contains("999"));

    assert_eq!(g.call(node, network(200, "nope", "10.60.0.0/24", false)).unwrap_err().status, 403);
    assert_eq!(g.call(None, network(201, "nope", "10.61.0.0/24", false)).unwrap_err().status, 403);

    g.call(node, host("web-1", "192.168.1.10", "02:00:00:00:00:01")).unwrap();
    let shown = get_host(&g.topo, "web-1").unwrap();
    assert_eq!(shown.id, "web-1");
    assert_eq!(shown.vtep, "192.168.1.10");
    assert_eq!(shown.encap, "vxlan");
    let other = g.call(node, host("db-9", "192.168.1.20", "02:00:00:00:00:02")).unwrap_err();
    assert_eq!(other.status, 403);
    assert_eq!(other.message, "add/update host \"db-9\" (host-scoped)");

    let made = created_port(g.call(node, port(100, "web-1", "tap0")).unwrap()).unwrap();
    assert_eq!(made.vni, 100);
    assert_eq!(made.host, "web-1");
    assert!(!made.ip.is_empty());
    assert_eq!(get_port(&g.topo, &made.id).unwrap(), made);
    assert_eq!(g.call(node, port(100, "db-9", "tap1")).unwrap_err().status, 403);

    let web = RestCall::CreateSecurityGroup(CreateSecurityGroupReq {
        name: "web".into(),
        default_action: Some("drop".into()),
        drop_icmp: false,
        stateful: true,
        blocklist: vec![],
        rules: vec![RuleReq {
            proto: "tcp".into(),
            port: 443,
            action: "pass".into(),
            log: false,
            src: None,
        }],
    });
    g.call(admin, web).unwrap();
    let web = get_security_group(&g.topo, "web").unwrap();
    assert_eq!(web.name, "web");
    assert_eq!(web.default_action, "drop");
    assert!(web.stateful);
    assert_eq!(web.rules[0].proto, "tcp");
    assert_eq!(web.rules[0].port, 443);
    assert_eq!(web.policy_id, security_group_policy_id("web"));

    g.call(admin, subnet("sub-a", 100, "10.50.0.0/24")).unwrap();
    let shown = get_subnet(&g.book.subnets(), "sub-a").unwrap();
    assert_eq!(shown.cidr, "10.50.0.0/24");
    assert_eq!(shown.vni, 100);
    g.call(admin, subnet("fip-pool", 100, "192.0.2.0/24")).unwrap();
    let call = RestCall::AllocateFloatingIp { subnet_id: "fip-pool".into(), ip: None };
    let fip = returned_floating_ip(&g.call(admin, call).unwrap()).unwrap();
    assert_eq!(fip.subnet_id, "fip-pool");
    assert_eq!(fip.addr, "192.0.2.1");
    assert_eq!(list_floating_ips(&g.book.floating_ips()), vec![get_floating_ip(
        &g.book.floating_ips(),
        &fip.id
    )
    .unwrap()]);
    let held = g.call(admin, RestCall::DeleteSubnet { id: "fip-pool".into() }).unwrap_err();
    assert_eq!(held.status, 409);
    assert!(g.call(admin, RestCall::ReleaseFloatingIp { id: fip.id.clone() }).unwrap().ok);
    assert!(g.book.floating_ips().is_empty());

    let busy = g.call(admin, RestCall::DeleteNetwork { vni: 100 }).unwrap_err();
    assert_eq!(busy.status, 409);
    assert_eq!(
        busy.message,
        format!("network 100 still has port {:?}; remove it first", made.id)
    );
    assert!(g.call(admin, RestCall::DeletePort { id: made.id.clone() }).unwrap().ok);
    // The subnets must go before the network that they belong to.
    let early = g.call(admin, RestCall::DeleteNetwork { vni: 100 }).unwrap_err();
    assert_eq!(early.status, 409);
    assert_eq!(early.message, "network vni 100 still has subnets");
    assert!(g.call(admin, RestCall::DeleteSubnet { id: "sub-a".into() }).unwrap().ok);
    assert!(g.call(admin, RestCall::DeleteSubnet { id: "fip-pool".into() }).unwrap().ok);
    assert!(g.call(admin, RestCall::DeleteNetwork { vni: 100 }).unwrap().ok);
    assert!(list_networks(g.topo.networks()).is_empty());
    assert!(g.call(node, RestCall::DeleteHost { id: "web-1".into() }).unwrap().ok);
    assert!(list_hosts(g.topo.hosts()).is_empty());

    let audit = g.audit.recent(None);
    let net_create =
        audit.iter().find(|e| e.operation == "network.create" && e.result == "ok").unwrap();
    assert_eq!(net_create.actor, "ops-admin");
    assert_eq!(net_create.target, "vni=100");
    assert!(net_create.ts_millis > 0);
    assert!(audit.iter().any(|e| e.operation == "network.create"
        && e.result == "denied"
        && e.actor == "web-1"));
    assert!(audit.iter().any(|e| e.operation == "network.create"
        && e.result == "denied"
        && e.actor == "anonymous"));
    assert!(audit.iter().any(|e| e.operation == "port.create"
        && e.actor == "web-1"
        && e.target == "host=web-1 vni=100"));
    assert!(audit
        .iter()
        .any(|e| e.operation == "network.delete" && e.result.starts_with("error: ")));
    for (i, e) in audit.iter().enumerate() {
        assert_eq!(e.seq, i as u64);
    }
}

#[test]
fn a_body_that_cannot_be_read_is_recorded_as_an_error() {
    let mut g = Gateway::new();
    let mut bad = CreateHostReq {
        id: "web-1".into(),
        vtep: "192.168.1.10".into(),
        underlay_iface: "eth0".into(),
        underlay_mac: "02:00:00:00:00:01".into(),
        encap: Some("gre".into()),
        udp_port: 0,
        underlay_mtu: 0,
    };
    let e = g.call(Some(ADMIN_TOKEN), RestCall::CreateHost(bad)).unwrap_err();
    assert_eq!(e.status, 400);
    assert_eq!(e.message, "unknown encap \"gre\" (use vxlan or geneve)");
    assert_eq!(g.audit.recent(None).len(), 1);
    assert_eq!(g.audit.recent(None)[0].operation, "host.create");
    assert_eq!(g.audit.recent(None)[0].target, "web-1");
    assert_eq!(g.audit.recent(None)[0].result, format!("error: {}", e.message));

    bad = CreateHostReq {
        id: "web-1".into(),
        vtep: "nowhere".into(),
        underlay_iface: "eth0".into(),
        underlay_mac: "02:00:00:00:00:01".into(),
        encap: Some("geneve".into()),
        udp_port: 6081,
        underlay_mtu: 9000,
    };
    let e = g.call(Some(ADMIN_TOKEN), RestCall::CreateHost(bad)).unwrap_err();
    assert_eq!(e.status, 400);
    assert_eq!(g.audit.recent(None).len(), 2);
    assert_eq!(g.audit.recent(None)[1].result, format!("error: {}", e.message));
}

#[test]
fn without_tokens_the_gateway_is_open() {
    let open = gateway_policy(false, vec!["ops-admin".to_string()]);
    assert!(open.allow_admin(&Caller::Anonymous));
    let tokens = parse_tokens(&Vec::new()).unwrap();
    assert!(matches!(caller(&tokens, Some("Bearer x")), Caller::Anonymous));
}

#[test]
fn tokens_are_read_from_the_header() {
    let texts = vec!["ops=s3cret".to_string(), "web=a=b".to_string()];
    let tokens = parse_tokens(&texts).unwrap();
    assert!(matches!(caller(&tokens, Some("Bearer s3cret")), Caller::Cert(n) if n == "ops"));
    assert!(matches!(caller(&tokens, Some("Bearer   a=b ")), Caller::Cert(n) if n == "web"));
    assert!(matches!(caller(&tokens, Some("bearer s3cret")), Caller::Anonymous));
    assert!(matches!(caller(&tokens, Some("Bearer s3cre")), Caller::Anonymous));
    assert!(matches!(caller(&tokens, Some("Basic s3cret")), Caller::Anonymous));
    assert!(matches!(caller(&tokens, None), Caller::Anonymous));
    assert_eq!(bearer(Some("Bearer \t x y \n")), Some("x y".to_string()));
    assert_eq!(bearer(Some("Bearer")), None);
    assert_eq!(
        parse_tokens(&vec!["nothing".to_string()]).unwrap_err(),
        "--rest-token must be CN=TOKEN, got \"nothing\""
    );
}

#[test]
fn byte_strings_are_compared_whole() {
    assert!(ct_eq(b"", b""));
    assert!(ct_eq(b"abc", b"abc"));
    assert!(!ct_eq(b"abc", b"abd"));
    assert!(!ct_eq(b"abc", b"ab"));
    assert!(!ct_eq(&[0x80], &[0x00]));
}

#[test]
fn words_outside_the_vocabulary_are_named() {
    assert_eq!(parse_action("pass").unwrap(), WireAction::Pass);
    assert_eq!(parse_action("drop").unwrap(), WireAction::Drop);
    assert_eq!(
        parse_action("reject").unwrap_err().message,
        "unknown action \"reject\" (use pass or drop)"
    );
    assert_eq!(parse_proto("icmp").unwrap(), ProtoName::Icmp);
    assert_eq!(
        parse_proto("sctp").unwrap_err().message,
        "unknown proto \"sctp\" (use tcp/udp/icmp)"
    );
    assert_eq!(parse_encap("geneve").unwrap(), EncapName::Geneve);
    assert_eq!(parse_encap("srv6").unwrap_err().status, 400);
}

#[test]
fn the_first_unreadable_rule_is_reported() {
    let rule = |proto: &str, action: &str| RuleReq {
        proto: proto.into(),
        port: 80,
        action: action.into(),
        log: true,
        src: Some("10.0.0.0/8".into()),
    };
    let group = |rules| {
        RestCall::CreateSecurityGroup(CreateSecurityGroupReq {
            name: "web".into(),
            default_action: None,
            drop_icmp: false,
            stateful: false,
            blocklist: vec!["203.0.113.0/24".into()],
            rules,
        })
    };
    let e = request(&group(vec![rule("tcp", "pass"), rule("gre", "nope"), rule("x", "pass")]))
        .unwrap_err();
    assert_eq!(e.message, "unknown proto \"gre\" (use tcp/udp/icmp)");
    match request(&group(vec![rule("udp", "drop")])).unwrap() {
        TopoRequest::AddSecurityGroup(s) => {
            assert_eq!(s.default_action, ActionName::Pass);
            assert_eq!(s.blocklist, vec!["203.0.113.0/24".to_string()]);
            assert_eq!(
                s.rules,
                vec![PortRule {
                    proto: ProtoName::Udp,
                    port: 80,
                    action: ActionName::Drop,
                    log: true,
                    src: Some("10.0.0.0/8".into()),
                }]
            );
        }
        other => panic!("{other:?}"),
    }
}

#[test]
fn requests_for_addresses_leave_out_empty_choices() {
    let call = RestCall::CreateSubnet(CreateSubnetReq {
        id: "sub-a".into(),
        vni: 100,
        cidr: "10.50.0.0/24".into(),
        gateway: Some("".into()),
        pool_start: None,
        pool_end: Some("10.50.0.9".into()),
        enable_dhcp: true,
    });
    assert_eq!(
        request(&call).unwrap(),
        TopoRequest::AddSubnet(SubnetSpec {
            id: "sub-a".into(),
            vni: 100,
            cidr: "10.50.0.0/24".into(),
            gateway: None,
            pool_start: None,
            pool_end: Some("10.50.0.9".into()),
            enable_dhcp: true,
        })
    );
    let call = RestCall::AllocateFloatingIp { subnet_id: "pool".into(), ip: Some("".into()) };
    assert_eq!(
        request(&call).unwrap(),
        TopoRequest::AllocateFloatingIp { subnet_id: "pool".into(), ip: None }
    );
}

#[test]
fn subnets_and_floating_addresses_are_shown() {
    let subnet = subnet_from_spec(&SubnetSpec {
        id: "sub-a".into(),
        vni: 100,
        cidr: "10.50.0.0/24".into(),
        gateway: Some("10.50.0.1".into()),
        pool_start: Some("10.50.0.10".into()),
        pool_end: Some("10.50.0.20".into()),
        enable_dhcp: false,
    })
    .unwrap();
    let all = vec![subnet];
    let shown = get_subnet(&all, "sub-a").unwrap();
    assert_eq!(shown.vni, 100);
    assert_eq!(shown.cidr, "10.50.0.0/24");
    assert_eq!(shown.gateway, "10.50.0.1");
    assert_eq!(shown.pool_start, "10.50.0.10");
    assert_eq!(shown.pool_end, "10.50.0.20");
    assert_eq!(get_subnet(&all, "sub-b").unwrap_err().message, "no subnet with id \"sub-b\"");

    let fip = FloatingIp {
        id: "f1".into(),
        vni: 100,
        subnet_id: "pool".into(),
        addr: velstra::addr::IpAddr::parse("192.0.2.7").unwrap(),
        association: None,
    };
    let all = vec![fip];
    let shown = get_floating_ip(&all, "f1").unwrap();
    assert_eq!(shown.addr, "192.0.2.7");
    assert_eq!(shown.assoc_port, "");
    assert_eq!(
        get_floating_ip(&all, "f2").unwrap_err().message,
        "no floating ip with id \"f2\""
    );
}

#[test]
fn responses_without_what_was_asked_for_are_failures() {
    assert_eq!(created_port(TopoResponse::ok()).unwrap_err().message, "no port returned");
    let e = returned_floating_ip(&TopoResponse::ok()).unwrap_err();
    assert_eq!((e.status, e.message.as_str()), (500, "no floating ip"));
    let r = TopoResponse::ok_floating(FloatingIpRecord {
        id: "f1".into(),
        vni: 100,
        subnet_id: "pool".into(),
        addr: "192.0.2.7".into(),
        assoc_port: Some("p1".into()),
        assoc_fixed: None,
    });
    let f = returned_floating_ip(&r).unwrap();
    assert_eq!((f.assoc_port.as_str(), f.assoc_fixed.as_str()), ("p1", ""));
}

#[test]
fn failures_keep_their_class_over_http() {
    for (code, status) in [
        (Code::PermissionDenied, 403),
        (Code::InvalidArgument, 400),
        (Code::NotFound, 404),
        (Code::FailedPrecondition, 409),
        (Code::AlreadyExists, 409),
        (Code::Internal, 500),
        (Code::Other, 500),
    ] {
        let e = status_to_api(&Status { code, message: "m".into() });
        assert_eq!((e.status, e.message.as_str()), (status, "m"));
    }
    let mut g = Gateway::new();
    let who = Caller::Cert("ops-admin".into());
    let call = RestCall::DeletePort { id: "p".into() };
    let down = Err(Status { code: Code::FailedPrecondition, message: "not the leader".into() });
    let e = finish(&who, &call, down, &mut g.audit, 5).unwrap_err();
    assert_eq!(e.status, 409);
    assert_eq!(g.audit.recent(None)[0].result, "error: not the leader");
    let rejected = Ok(TopoResponse { ok: false, ..TopoResponse::ok() });
    let e = finish(&who, &call, rejected, &mut g.audit, 6).unwrap_err();
    assert_eq!((e.status, e.message.as_str()), (409, "rejected"));
}

#[test]
fn the_audit_trail_keeps_the_latest_records() {
    let mut a = Audit::new();
    let n = AUDIT_RING_CAP as u64 + 10;
    for i in 0..n {
        let e = a.record(i, "ops", "port.delete", "p", "ok");
        assert_eq!(e.seq, i);
    }
    let all = a.recent(None);
    assert_eq!(all.len(), AUDIT_RING_CAP);
    assert_eq!(all[0].seq, 10);
    assert_eq!(all[AUDIT_RING_CAP - 1].seq, n - 1);
    let last = a.recent(Some(2));
    assert_eq!(last.iter().map(|e| e.seq).collect::<Vec<u64>>(), vec![n - 2, n - 1]);
    assert_eq!(a.recent(Some(0)).len(), 0);
    assert_eq!(a.recent(Some(5000)).len(), AUDIT_RING_CAP);
}

#[test]
fn messages_become_requests() {
    let m = HostMessage {
        id: "h1".into(),
        vtep: "10.0.0.1".into(),
        underlay_iface: "eth0".into(),
        underlay_mac: "02:00:00:00:00:11".into(),
        encap: EncapName::Geneve,
        udp_port: 0,
        underlay_mtu: 65536 + 1500,
    };
    let s = raft_host_spec(&m);
    assert_eq!(s.udp_port, None);
    assert_eq!(s.underlay_mtu, Some(1500));
    let s = raft_subnet_spec(&SubnetMessage {
        id: "s".into(),
        vni: 7,
        cidr: "10.0.0.0/8".into(),
        gateway: "".into(),
        pool_start: "10.0.0.2".into(),
        pool_end: "".into(),
        enable_dhcp: false,
    });
    assert_eq!((s.gateway, s.pool_start, s.pool_end), (None, Some("10.0.0.2".into()), None));
}

#[test]
fn a_rule_survives_the_wire_but_for_a_rejection() {
    let rule = PortRule {
        proto: ProtoName::Udp,
        port: 65535,
        action: ActionName::Reject,
        log: true,
        src: Some("10.0.0.0/8".into()),
    };
    let back = config_rule_from_proto(&proto_rule_from_config(&rule));
    assert_eq!(back, PortRule { action: ActionName::Drop, ..rule });
    assert_eq!(action_to_proto(action_from_proto(WireAction::Drop)), WireAction::Drop);
    let wide = RuleMessage {
        proto: ProtoName::Tcp,
        port: 65536 + 80,
        action: WireAction::Pass,
        log: false,
        src: "".into(),
    };
    let narrow = config_rule_from_proto(&wide);
    assert_eq!((narrow.port, narrow.src), (80, None));
}

#[test]
fn calls_are_denied_with_the_reason() {
    let authz = Authz::new(vec!["ops".to_string()], true);
    let node = Caller::Cert("web-1".into());
    let denied = accept(
        &authz,
        &node,
        &OrchCall::AddNetwork(NetworkMessage {
            vni: 1,
            name: "n".into(),
            subnet: "10.0.0.0/24".into(),
            default_action: WireAction::Pass,
            drop_icmp: false,
        }),
    )
    .unwrap_err();
    assert_eq!(denied.code, Code::PermissionDenied);
    assert_eq!(denied.message, "not authorized to define networks (admin only)");
    let denied = accept(&authz, &node, &OrchCall::RemoveHost { id: "db-9".into() }).unwrap_err();
    assert_eq!(denied.message, "not authorized to remove host \"db-9\"");
    let own = accept(&authz, &node, &OrchCall::RemoveHost { id: "web-1".into() }).unwrap();
    assert_eq!(own, TopoRequest::RemoveHost { id: "web-1".into() });
    let made = accept(
        &authz,
        &node,
        &OrchCall::CreatePort {
            network: 5,
            host: "web-1".into(),
            tap: "tap0".into(),
            ip: "".into(),
            policy: Some(9),
        },
    )
    .unwrap();
    assert_eq!(
        made,
        TopoRequest::CreatePort {
            vni: 5,
            host: "web-1".into(),
            tap: "tap0".into(),
            ip: None,
            policy: Some(9),
        }
    );
}

#[test]
fn writes_go_to_the_leader() {
    assert_eq!(route(None, None), Route::Apply);
    assert_eq!(route(Some(1), Some(1)), Route::Replicate);
    assert!(is_leader(2, Some(2)) && !is_leader(2, Some(1)) && !is_leader(2, None));
    match route(Some(1), Some(3)) {
        Route::Redirect(s) => {
            assert_eq!(s.code, Code::FailedPrecondition);
            assert_eq!(
                s.message,
                "not the leader; current leader is node 3 — send writes there"
            );
        }
        other => panic!("{other:?}"),
    }
    match route(Some(1), None) {
        Route::Redirect(s) => assert!(s.message.contains("node None —"), "{}", s.message),
        other => panic!("{other:?}"),
    }
}

#[test]
fn responses_become_answers() {
    let failed = || TopoResponse { ok: false, error: Some("in use".into()), ..TopoResponse::ok() };
    let e = answer(&OrchCall::RemoveNetwork { vni: 5 }, failed()).unwrap_err();
    assert_eq!((e.code, e.message.as_str()), (Code::FailedPrecondition, "in use"));
    let group = OrchCall::AddSecurityGroup(SecurityGroupMessage {
        name: "web".into(),
        default_action: WireAction::Drop,
        drop_icmp: false,
        stateful: false,
        blocklist: vec![],
        rules: vec![],
    });
    assert_eq!(answer(&group, failed()).unwrap_err().code, Code::InvalidArgument);
    let gone = OrchCall::RemovePort { id: "p".into() };
    assert_eq!(answer(&gone, failed()).unwrap(), OrchReply::Ack { ok: false });
    let moved = OrchCall::MigratePort { id: "p".into(), host: "h".into(), tap: "t".into() };
    let e = answer(&moved, TopoResponse::ok()).unwrap_err();
    assert_eq!((e.code, e.message.as_str()), (Code::Internal, "migrate_port returned no port"));
}

#[test]
fn the_fabric_is_listed() {
    let mut g = Gateway::new();
    g.call(Some(ADMIN_TOKEN), network(100, "a", "10.50.0.0/24", false)).unwrap();
    g.call(Some(NODE_TOKEN), host("web-1", "192.168.1.10", "02:00:00:00:00:01")).unwrap();
    g.call(Some(NODE_TOKEN), port(100, "web-1", "tap0")).unwrap();
    let ports = list_ports(g.topo.ports());
    assert_eq!(ports.len(), 1);
    assert_eq!(ports[0].ip, "10.50.0.1");
    assert_eq!(ports[0].mac, "02:00:0a:32:00:01");
    assert!(list_security_groups(g.topo.security_groups()).is_empty());
    let e = get_port(&g.topo, "nope").unwrap_err();
    assert_eq!(e.message, "no port with id \"nope\"");
    let e = get_security_group(&g.topo, "nope").unwrap_err();
    assert_eq!(e.message, "no security group named \"nope\"");
}
