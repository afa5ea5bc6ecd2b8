//! What is served to whom, and what the nodes report.

use velstra::admin::{OrchCall, OrchReply};
use velstra::authz::{Authz, Caller};
use velstra::client::{
    group_table, group_to_bind, node_table, orch, port_table, report, report_push,
    report_withdrawal, Ask, OrchAction,
};
use velstra::config::{
    ActionName, BackendCfg, FileConfig, InterfaceFile, PolicyFile, ProtoName, ServiceCfg,
};
use velstra::controller::{same_configs, Configs, NodeSummary, State, NOTHING_SENT};
use velstra::rest::Code;
use velstra::sorted::{SortedMap, TextKey};
use velstra::startup::{
    admin_policy, check_sources, fabric_file, parse_cli_rule, parse_peers, peer_endpoint,
    peer_transport, poll_seconds, security_group_message, server_transport,
    GroupArgs, MemberKey, Transport,
};
use velstra::messages::{PortInfo, SecurityGroupInfo, WireAction};
use velstra::stats::{report_stats, CounterReport, StatsBoard};

fn configs(list: Vec<(&str, FileConfig)>) -> Configs {
    let mut m: Configs = SortedMap::new();
    for (node, c) in list {
        m.insert(TextKey { text: node.to_string() }, c);
    }
    m
}

fn tenant() -> FileConfig {
    let mut c = FileConfig::default();
    c.default_action = ActionName::Drop;
    c.policies.push(PolicyFile {
        id: 5,
        name: Some("tenant".into()),
        default_action: ActionName::Pass,
        drop_icmp: false,
        log: false,
        stateful: false,
        blocklist: vec![],
        port_rules: vec![],
    });
    c.interfaces.push(InterfaceFile {
        name: "lo".into(),
        policy: 5,
        vni: None,
        masquerade: false,
    });
    c.services.push(ServiceCfg {
        vip: "10.0.0.100".into(),
        port: 80,
        proto: ProtoName::Tcp,
        backends: vec![BackendCfg { ip: "10.0.1.2".into(), port: 8080 }],
        policy: 0,
    });
    c
}

fn blocking() -> FileConfig {
    let mut c = FileConfig::default();
    c.blocklist.push("10.0.0.0/8".into());
    c
}

#[test]
fn configurations_are_served_and_updated() {
    let mut s = State::new();
    let open = Authz::disabled();
    let me = Caller::Anonymous;
    assert!(s.load(Some(configs(vec![("node-a", tenant())])), configs(vec![])).is_some());

    let cfg = s.get_config("node-a");
    assert_eq!(cfg.config.default_action, ActionName::Drop);
    assert_eq!(cfg.config.policies.len(), 1);
    assert_eq!(cfg.config.policies[0].id, 5);
    assert_eq!(cfg.config.policies[0].default_action, ActionName::Pass);
    assert_eq!(cfg.config.interfaces.len(), 1);
    assert_eq!(cfg.config.interfaces[0].name, "lo");
    assert_eq!(cfg.config.interfaces[0].policy, 5);
    assert_eq!(cfg.config.services.len(), 1);
    assert_eq!(cfg.config.services[0].port, 80);
    assert_eq!(cfg.config.services[0].proto, ProtoName::Tcp);
    assert_eq!(cfg.config.services[0].backends[0].ip, "10.0.1.2");
    let first_version = cfg.version;

    let unknown = s.get_config("nope");
    assert_eq!(unknown.config.default_action, ActionName::Pass);
    assert!(unknown.config.services.is_empty());
    assert_eq!(unknown.version, 0);

    assert!(s.watch_config("node-a", NOTHING_SENT).is_some());
    assert!(s.watch_config("node-a", first_version).is_none());
    assert!(s.set_files(configs(vec![("node-a", tenant())])).is_none());
    assert!(s.set_files(configs(vec![("node-a", blocking())])).is_some());
    let msg = s.watch_config("node-a", first_version).unwrap();
    assert!(msg.version > first_version);
    assert_eq!(msg.config.blocklist, vec!["10.0.0.0/8".to_string()]);
    assert_eq!(msg.config.default_action, ActionName::Pass);

    let mut pushed = FileConfig::default();
    pushed.default_action = ActionName::Drop;
    pushed.services.push(ServiceCfg {
        vip: "192.0.2.1".into(),
        port: 443,
        proto: ProtoName::Tcp,
        backends: vec![BackendCfg { ip: "10.9.9.9".into(), port: 8443 }],
        policy: 0,
    });
    assert!(s.set_config(&open, &me, "node-b".into(), Some(pushed), None, None, None).unwrap().is_some());
    let served = s.get_config("node-b");
    assert_eq!(served.config.default_action, ActionName::Drop);
    assert_eq!(served.config.services[0].vip, "192.0.2.1");
    assert!(served.version > 0);

    let list = s.list_nodes();
    let summary = list.iter().find(|n| n.node_id == "node-b").unwrap();
    assert!(summary.from_admin);
    assert_eq!(summary.source, "admin");
    assert_eq!(list.iter().find(|n| n.node_id == "node-a").unwrap().source, "file");

    assert!(s.delete_config(&open, &me, "node-b".into(), None, None).unwrap().0);
    let reverted = s.get_config("node-b");
    assert_eq!(reverted.config.default_action, ActionName::Pass);
    assert!(reverted.config.services.is_empty());
    assert!(reverted.version > served.version);
    assert_eq!(s.delete_config(&open, &me, "node-b".into(), None, None), Ok((false, None)));
}

#[test]
fn sources_rank_override_derived_file() {
    let mut s = State::new();
    let open = Authz::disabled();
    s.load(Some(configs(vec![("n", tenant()), ("m", tenant())])), configs(vec![("n", blocking())]));
    assert_eq!(s.get_config("n").config, blocking());
    assert_eq!(s.get_config("m").config, tenant());
    let (vn, vm) = (s.get_config("n").version, s.get_config("m").version);
    assert_ne!(vn, vm);
    s.set_config(&open, &Caller::Anonymous, "n".into(), Some(FileConfig::default()), None, None, None).unwrap();
    assert_eq!(s.get_config("n").config, FileConfig::default());
    assert_eq!(s.get_config("m").version, vm);
    s.delete_config(&open, &Caller::Anonymous, "n".into(), None, None).unwrap();
    assert_eq!(s.get_config("n").config, blocking());
    assert!(s.set_derived(configs(vec![])).is_some());
    assert_eq!(s.get_config("n").config, tenant());
    assert!(s.set_derived(configs(vec![])).is_none());
}

#[test]
fn pushes_are_authorized_and_validated() {
    let mut s = State::new();
    let authz = Authz::new(vec!["ops".to_string()], true);
    let node = Caller::Cert("web-1".into());
    let e = s
        .set_config(&authz, &node, "db-9".into(), Some(tenant()), None, None, None)
        .unwrap_err();
    assert_eq!(e.code, Code::PermissionDenied);
    assert_eq!(e.message, "not authorized to set config for node \"db-9\"");
    let e = s.set_config(&authz, &node, "web-1".into(), None, None, None, None).unwrap_err();
    assert_eq!((e.code, e.message.as_str()), (Code::InvalidArgument, "missing config"));
    let e = s
        .set_config(&authz, &node, "web-1".into(), Some(tenant()), Some("bad port".into()), None, None)
        .unwrap_err();
    assert_eq!(e.message, "invalid config: bad port");
    assert!(s.list_nodes().is_empty());
    let follower = s
        .set_config(&authz, &node, "web-1".into(), Some(tenant()), None, Some(2), Some(3))
        .unwrap_err();
    assert_eq!(follower.code, Code::FailedPrecondition);
    assert_eq!(
        follower.message,
        "not the leader; current leader is node 3 — send writes there"
    );
    assert!(s.list_nodes().is_empty());
    assert!(s.set_config(&authz, &node, "web-1".into(), Some(tenant()), None, None, None).is_ok());
    let e = s.delete_config(&authz, &node, "web-1".into(), Some(2), Some(3)).unwrap_err();
    assert_eq!(e, follower);
    assert_eq!(s.list_nodes().len(), 1);
    let e = s.delete_config(&authz, &Caller::Anonymous, "web-1".into(), None, None).unwrap_err();
    assert_eq!(e.message, "not authorized to delete config for node \"web-1\"");
}

#[test]
fn tables_of_configurations_are_compared_whole() {
    let a = configs(vec![("x", tenant()), ("y", blocking())]);
    let b = configs(vec![("y", blocking()), ("x", tenant())]);
    assert!(same_configs(&a, &b));
    assert!(!same_configs(&a, &configs(vec![("x", tenant())])));
    assert!(!same_configs(&configs(vec![("x", tenant())]), &a));
    assert!(!same_configs(&a, &configs(vec![("x", tenant()), ("y", tenant())])));
}

fn counter(name: &str, value: u64) -> CounterReport {
    CounterReport { name: name.into(), value }
}

#[test]
fn counters_can_be_asked_for_after_they_are_reported() {
    let mut board = StatsBoard::new();
    assert!(board.all().is_empty());
    let first = vec![
        counter("xdp_pass", 4210),
        counter("xdp_drop", 17),
        counter("conntrack_evict", 0),
    ];
    board.report("edge-7".into(), first, 1_700_000_000_000);
    let rows = board.all();
    assert_eq!(rows.len(), 1);
    assert_eq!(rows[0].node_id, "edge-7");
    assert_eq!(rows[0].counters[0], counter("xdp_pass", 4210));
    assert_eq!(rows[0].counters[1], counter("xdp_drop", 17));
    assert_eq!(rows[0].counters[2], counter("conntrack_evict", 0));
    assert!(rows[0].reported_at_ms > 0);
    assert_eq!(board.one("edge-7").unwrap().counters[0].value, 4210);

    let missing = board.one("never-seen").unwrap_err();
    assert_eq!(missing.status, 404);
    assert!(missing.message.contains("reported"));

    let all = board.get_stats("");
    assert_eq!(all.len(), 1);
    assert_eq!(all[0].node_id, "edge-7");
    assert_eq!(all[0].counters.len(), 3);

    board.report("edge-7".into(), vec![counter("xdp_pass", 9999)], 1_700_000_000_500);
    let again = board.get_stats("edge-7");
    assert_eq!(again.len(), 1);
    assert_eq!(again[0].counters.len(), 1);
    assert_eq!(again[0].counters[0].value, 9999);
    assert!(board.get_stats("other").is_empty());
}

#[test]
fn reports_are_logged_without_zeros() {
    let r = vec![counter("a", 0), counter("b", 7), counter("c", 0), counter("d", 12)];
    assert_eq!(report_stats(&r), "b=7 d=12");
    assert_eq!(report_stats(&vec![counter("a", 0)]), "");
}

#[test]
fn members_are_read_from_the_command_line() {
    let peers = vec!["1=a:1".to_string(), "2=b=c".to_string(), "1=z:9".to_string()];
    let m = parse_peers(&peers, 7, "me:1").unwrap();
    assert_eq!(m.items().len(), 2);
    assert_eq!(m.get(&MemberKey { id: 1 }).unwrap(), "z:9");
    assert_eq!(m.get(&MemberKey { id: 2 }).unwrap(), "b=c");
    let alone = parse_peers(&vec![], 7, "me:1").unwrap();
    assert_eq!(alone.get(&MemberKey { id: 7 }).unwrap(), "me:1");
    let big = parse_peers(&vec!["18446744073709551615=x".to_string()], 7, "me:1").unwrap();
    assert_eq!(big.get(&MemberKey { id: u64::MAX }).unwrap(), "x");
    assert_eq!(
        parse_peers(&vec!["nope".to_string()], 7, "me:1").unwrap_err(),
        "--peer must be id=host:port, got \"nope\""
    );
    assert_eq!(
        parse_peers(&vec!["x=y".to_string()], 7, "me:1").unwrap_err(),
        "bad peer id in \"x=y\""
    );
}

#[test]
fn rules_are_read_from_the_command_line() {
    let r = parse_cli_rule("tcp:80", WireAction::Pass).unwrap();
    assert_eq!((r.proto, r.port, r.action), (ProtoName::Tcp, 80, WireAction::Pass));
    assert_eq!(
        parse_cli_rule("tcp80", WireAction::Pass).unwrap_err(),
        "rule \"tcp80\" must be proto:port (e.g. tcp:80)"
    );
    assert_eq!(
        parse_cli_rule("gre:80", WireAction::Drop).unwrap_err(),
        "unknown proto \"gre\" in rule \"gre:80\" (use tcp/udp/icmp)"
    );
    assert_eq!(
        parse_cli_rule("udp:65536", WireAction::Drop).unwrap_err(),
        "bad port in rule \"udp:65536\""
    );
    let args = |default: &str, deny: &str| GroupArgs {
        name: "web".into(),
        default_action: default.into(),
        drop_icmp: false,
        stateful: true,
        allow: vec!["tcp:80".into(), "tcp:443".into()],
        deny: vec![deny.into()],
        block: vec!["10.0.0.0/8".into()],
    };
    let m = security_group_message(&args("drop", "tcp:22")).unwrap();
    assert_eq!(m.default_action, WireAction::Drop);
    assert_eq!(m.rules.iter().map(|r| r.port).collect::<Vec<u32>>(), vec![80, 443, 22]);
    assert_eq!(m.rules[2].action, WireAction::Drop);
    assert_eq!(m.blocklist, vec!["10.0.0.0/8".to_string()]);
    assert_eq!(
        security_group_message(&args("deny", "tcp:22")).unwrap_err(),
        "unknown default_action \"deny\" (use pass or drop)"
    );
    assert!(security_group_message(&args("pass", "x")).is_err());
    assert_eq!(group_to_bind(&Some("web".into()), true), None);
    assert_eq!(group_to_bind(&Some("web".into()), false), Some("web".into()));
}

#[test]
fn the_command_line_decides_what_is_served() {
    assert_eq!(check_sources(false, true, false), Ok(()));
    assert_eq!(
        check_sources(false, false, false).unwrap_err(),
        "provide --config-dir, --topology, or --node-id (cluster mode)"
    );
    assert_eq!(server_transport(true, true, false), Transport::Tls);
    assert_eq!(server_transport(true, true, true), Transport::Mutual);
    assert_eq!(server_transport(true, false, true), Transport::Plain);
    assert_eq!(peer_transport(true, true, false), Transport::Plain);
    assert_eq!(peer_transport(true, true, true), Transport::Mutual);
    assert_eq!(peer_endpoint(Transport::Plain, "a:1"), "http://a:1");
    assert_eq!(peer_endpoint(Transport::Mutual, "a:1"), "https://a:1");
    assert_eq!(poll_seconds(0), 1);
    assert_eq!(poll_seconds(9), 9);
    assert_eq!(fabric_file(Some("f".into()), true), None);
    assert_eq!(fabric_file(Some("f".into()), false), Some("f".into()));
    assert!(admin_policy(false, vec![]).allow_admin(&Caller::Anonymous));
    assert!(!admin_policy(true, vec![]).allow_admin(&Caller::Anonymous));
}

fn a_port() -> PortInfo {
    PortInfo {
        id: "port-100-10.0.0.2".into(),
        vni: 100,
        host: "hv-b".into(),
        ip: "10.0.0.2".into(),
        mac: "02:00:00:00:00:02".into(),
        tap: "tap0".into(),
    }
}

#[test]
fn commands_become_calls() {
    let add = |encap: &str| OrchAction::AddHost {
        id: "hv-a".into(),
        vtep: "10.1.1.1".into(),
        iface: "eth0".into(),
        mac: "02:00:00:00:00:01".into(),
        encap: encap.into(),
    };
    match orch(&add("geneve")).unwrap() {
        Ask::Call(OrchCall::AddHost(m)) => {
            assert_eq!(m.encap, velstra::config::EncapName::Geneve);
            assert_eq!((m.udp_port, m.underlay_mtu), (0, 0));
            assert_eq!(m.underlay_iface, "eth0");
        }
        other => panic!("{other:?}"),
    }
    assert_eq!(
        orch(&add("gre")).unwrap_err(),
        "unknown encap \"gre\" (use vxlan or geneve)"
    );
    let create = OrchAction::CreatePort {
        network: 100,
        host: "hv-a".into(),
        tap: "tap0".into(),
        ip: None,
        policy: Some(7),
    };
    assert_eq!(
        orch(&create),
        Ok(Ask::Call(OrchCall::CreatePort {
            network: 100,
            host: "hv-a".into(),
            tap: "tap0".into(),
            ip: "".into(),
            policy: Some(7),
        }))
    );
    let bind = OrchAction::BindPort { port: "p".into(), group: Some("web".into()), clear: true };
    assert_eq!(
        orch(&bind),
        Ok(Ask::Call(OrchCall::BindPortSecurityGroup { port_id: "p".into(), group: None }))
    );
    assert_eq!(orch(&OrchAction::ListPorts), Ok(Ask::Ports));
    assert_eq!(orch(&OrchAction::ListSecurityGroups), Ok(Ask::SecurityGroups));
}

#[test]
fn changes_are_reported() {
    let migrate =
        OrchAction::MigratePort { id: "p".into(), host: "hv-b".into(), tap: "tap0".into() };
    assert_eq!(
        report(&migrate, &OrchReply::Port(a_port())),
        "migrated port port-100-10.0.0.2 : 10.0.0.2 (02:00:00:00:00:02) now on hv-b via tap0"
    );
    let remove = OrchAction::RemovePort { id: "p\"q".into() };
    assert_eq!(report(&remove, &OrchReply::Ack { ok: false }), "no such port \"p\\\"q\"");
    assert_eq!(report(&remove, &OrchReply::Ack { ok: true }), "removed port \"p\\\"q\"");
    let bind = |clear: bool| OrchAction::BindPort {
        port: "p".into(),
        group: Some("web".into()),
        clear,
    };
    assert_eq!(
        report(&bind(false), &OrchReply::Port(a_port())),
        "bound port \"port-100-10.0.0.2\" to security group \"web\""
    );
    assert_eq!(
        report(&bind(true), &OrchReply::Port(a_port())),
        "cleared security group on port \"port-100-10.0.0.2\""
    );
    assert_eq!(report_push("hv-a", true), Ok("set config for node \"hv-a\"".to_string()));
    assert_eq!(report_push("hv-a", false).unwrap_err(), "controller rejected the config");
    assert_eq!(report_withdrawal("hv-a", false), "no override for node \"hv-a\"");
}

#[test]
fn lists_are_printed_in_columns() {
    let lines = port_table(&vec![a_port()]);
    assert_eq!(
        lines[0],
        format!("{:<22} {:>6}  {:<15} {:<17} {:<10} host", "id", "vni", "ip", "mac", "tap")
    );
    assert_eq!(
        lines[1],
        "port-100-10.0.0.2         100  10.0.0.2        02:00:00:00:00:02 tap0       hv-b"
    );
    let group = SecurityGroupInfo {
        name: "a-group-with-a-name-longer-than-its-column".into(),
        policy_id: 1_073_741_825,
        default_action: WireAction::Drop,
        drop_icmp: false,
        stateful: false,
        blocklist: vec![],
        rules: vec![parse_cli_rule("tcp:80", WireAction::Pass).unwrap()],
    };
    assert_eq!(
        group_table(&vec![group]),
        vec![
            "name                        policy_id  rules".to_string(),
            "a-group-with-a-name-longer-than-its-column   1073741825  1".to_string(),
        ]
    );
    let node = NodeSummary {
        node_id: "n\u{fc}rnberg".into(),
        version: 12,
        from_admin: false,
        source: "file".into(),
    };
    assert_eq!(
        node_table(&vec![node])[1],
        format!("{:<20} {:>8}  {}", "n\u{fc}rnberg", 12, "file")
    );
}

#[test]
fn a_recomputation_without_a_change_wakes_nobody() {
    let mut s = State::new();
    s.load(Some(configs(vec![("n", tenant()), ("m", tenant())])), configs(vec![]));
    assert_eq!(s.recompute(), None);
    assert!(s.set_files(configs(vec![("m", tenant())])).is_some());
    let reverted = s.get_config("n");
    assert_eq!(reverted.config, FileConfig::default());
    assert_eq!(s.recompute(), None);
    assert!(s.set_files(configs(vec![("m", blocking())])).is_some());
    assert_eq!(s.get_config("n").version, reverted.version);
    assert!(s.watch_config("n", reverted.version).is_none());
}
