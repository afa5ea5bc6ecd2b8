//! The model of the fabric.

use velstra::addr::{parse_cidr_v4, Ipv4Addr};
use velstra::config::{ActionName, EncapName, PortRule, ProtoName};
use velstra::orchestrator::{
    security_group_policy_id, Host, Network, SecurityGroup, Topology, EVPN_RESERVED_VNI_BASE,
    SECURITY_GROUP_POLICY_BASE,
};

fn v4(s: &str) -> Ipv4Addr {
    Ipv4Addr::parse(s).unwrap()
}

fn host(id: &str, vtep: &str, last_mac: u8) -> Host {
    Host {
        id: id.to_string(),
        vtep_ip: v4(vtep),
        underlay_iface: "eth0".to_string(),
        underlay_mac: [0x02, 0, 0, 0, 0, last_mac],
        encap: EncapName::Vxlan,
        udp_port: None,
        underlay_mtu: None,
    }
}

fn network(vni: u32, name: &str, subnet: &str) -> Network {
    Network {
        vni,
        name: name.to_string(),
        subnet: parse_cidr_v4(subnet).unwrap(),
        default_action: ActionName::Pass,
        drop_icmp: false,
    }
}

fn rule(proto: ProtoName, port: u16, action: ActionName) -> PortRule {
    PortRule { proto, port, action, log: false, src: None }
}

fn sg(name: &str, rules: Vec<PortRule>) -> SecurityGroup {
    SecurityGroup {
        name: name.to_string(),
        default_action: ActionName::Drop,
        drop_icmp: false,
        stateful: true,
        blocklist: Vec::new(),
        rules,
    }
}

fn derive_configs_str(t: &Topology) -> Vec<String> {
    let mut hosts: Vec<String> = t.hosts().iter().map(|h| h.id.clone()).collect();
    hosts.sort();
    hosts.iter().map(|id| format!("{:?}", t.derive(id))).collect()
}

#[test]
fn rejects_duplicate_tap_binding() {
    let mut t = Topology::new();
    t.add_host(host("h1", "10.0.0.1", 1));
    t.add_network(network(100, "blue", "192.168.50.0/24"))
        .unwrap();
    t.create_port(100, "h1", "tap0", None, None).unwrap();
    assert!(t.create_port(100, "h1", "tap0", None, None).is_err());
    assert!(t.create_port(100, "h1", "tap1", None, None).is_ok());
}

#[test]
fn remove_host_and_network_require_no_ports() {
    let mut t = Topology::new();
    t.add_host(host("h1", "10.0.0.1", 1));
    t.add_network(network(100, "blue", "192.168.50.0/24"))
        .unwrap();
    let p = t.create_port(100, "h1", "tap0", None, None).unwrap();
    assert!(t.remove_host("h1").is_err());
    assert!(t.remove_network(100).is_err());
    assert!(t.remove_port(&p.id));
    assert!(t.remove_network(100).unwrap());
    assert!(t.remove_host("h1").unwrap());
    assert!(!t.remove_host("h1").unwrap());
}

#[test]
fn ipam_allocates_sequentially_and_skips_taken() {
    let mut t = Topology::new();
    t.add_host(host("h1", "10.0.0.1", 1));
    t.add_network(network(100, "blue", "192.168.50.0/24"))
        .unwrap();

    let p1 = t.create_port(100, "h1", "tap0", None, None).unwrap();
    let p2 = t.create_port(100, "h1", "tap1", None, None).unwrap();
    assert_eq!(p1.ip, v4("192.168.50.1"));
    assert_eq!(p2.ip, v4("192.168.50.2"));
    assert_eq!(p1.mac, [0x02, 0x00, 192, 168, 50, 1]);

    let p3 = t
        .create_port(
            100,
            "h1",
            "tap2",
            Some(v4("192.168.50.9")),
            None,
        )
        .unwrap();
    assert_eq!(p3.ip, v4("192.168.50.9"));
    let p4 = t.create_port(100, "h1", "tap3", None, None).unwrap();
    assert_eq!(p4.ip, v4("192.168.50.3")); // skips .9
}

#[test]
fn rejects_duplicate_and_out_of_subnet_ips() {
    let mut t = Topology::new();
    t.add_host(host("h1", "10.0.0.1", 1));
    t.add_network(network(100, "blue", "192.168.50.0/24"))
        .unwrap();
    t.create_port(
        100,
        "h1",
        "tap0",
        Some(v4("192.168.50.5")),
        None,
    )
    .unwrap();
    assert!(
        t.create_port(
            100,
            "h1",
            "tap1",
            Some(v4("192.168.50.5")),
            None,
        )
        .is_err()
    );
    assert!(
        t.create_port(
            100,
            "h1",
            "tap2",
            Some(v4("10.0.0.5")),
            None,
        )
        .is_err()
    );
}

#[test]
fn rejects_unknown_network_or_host_and_bad_vni() {
    let mut t = Topology::new();
    t.add_host(host("h1", "10.0.0.1", 1));
    assert!(t.create_port(100, "h1", "tap0", None, None).is_err()); // no network
    t.add_network(network(100, "blue", "192.168.50.0/24"))
        .unwrap();
    assert!(t.create_port(100, "ghost", "tap0", None, None).is_err()); // no host
    assert!(t.add_network(network(0, "bad", "10.0.0.0/24")).is_err()); // vni 0
}

#[test]
fn rejects_networks_in_the_reserved_evpn_vni_range() {
    let mut t = Topology::new();
    assert!(
        t.add_network(network(EVPN_RESERVED_VNI_BASE, "evpn", "10.1.0.0/24"))
            .is_err()
    );
    assert!(
        t.add_network(network(EVPN_RESERVED_VNI_BASE + 42, "evpn2", "10.2.0.0/24"))
            .is_err()
    );
    assert!(
        t.add_network(network(EVPN_RESERVED_VNI_BASE - 1, "ok", "10.3.0.0/24"))
            .is_ok()
    );
}

#[test]
fn derives_local_interface_and_remote_tunnel_neighbor() {
    let mut t = Topology::new();
    t.add_host(host("h1", "10.10.0.1", 0x11));
    t.add_host(host("h2", "10.10.0.2", 0x22));
    t.add_network(network(5000, "blue", "192.168.100.0/24"))
        .unwrap();

    let pa = t.create_port(5000, "h1", "tapA", None, None).unwrap(); // .1 on h1
    let pb = t.create_port(5000, "h2", "tapB", None, None).unwrap(); // .2 on h2

    let cfg = t.derive("h1").unwrap();
    let rt = &cfg;

    let ov = rt.overlay.as_ref().unwrap();
    assert_eq!(ov.local_vtep, "10.10.0.1");

    assert!(rt.policies.iter().any(|p| p.id == 5000));

    let iface = rt.interfaces.iter().find(|i| i.name == "tapA").unwrap();
    assert_eq!(iface.policy, 5000);
    assert_eq!(iface.vni, Some(5000));
    assert!(!rt.interfaces.iter().any(|i| i.name == "tapB"));

    assert_eq!(rt.tunnels.len(), 1);
    let tun = &rt.tunnels[0];
    assert_eq!(tun.vni, 5000);
    assert_eq!(tun.inner_dst, format!("{}/32", pb.ip.to_string()));
    assert_eq!(tun.remote_vtep, "10.10.0.2");
    assert_eq!(tun.via_mac, "02:00:00:00:00:22");

    assert_eq!(rt.neighbors.len(), 1);
    assert_eq!(rt.neighbors[0].ip, pb.ip.to_string());
    assert_eq!(rt.neighbors[0].mac, "02:00:c0:a8:64:02");

    let cfg2 = t.derive("h2").unwrap();
    assert!(cfg2.interfaces.iter().any(|i| i.name == "tapB"));
    assert_eq!(cfg2.tunnels[0].inner_dst, format!("{}/32", pa.ip.to_string()));
    assert_eq!(cfg2.tunnels[0].remote_vtep, "10.10.0.1");
}

#[test]
fn host_without_ports_on_a_network_gets_no_tunnel_to_it() {
    let mut t = Topology::new();
    t.add_host(host("h1", "10.10.0.1", 0x11));
    t.add_host(host("h2", "10.10.0.2", 0x22));
    t.add_host(host("h3", "10.10.0.3", 0x33));
    t.add_network(network(5000, "blue", "192.168.100.0/24"))
        .unwrap();
    t.create_port(5000, "h1", "tapA", None, None).unwrap();
    t.create_port(5000, "h2", "tapB", None, None).unwrap();

    let cfg3 = t.derive("h3").unwrap();
    assert!(cfg3.tunnels.is_empty());
    assert!(cfg3.neighbors.is_empty());
    assert!(cfg3.interfaces.is_empty());
    assert!(cfg3.policies.is_empty());
}

#[test]
fn snapshot_roundtrip_is_lossless() {
    let mut t = Topology::new();
    t.add_host(host("h1", "10.10.0.1", 0x11));
    t.add_network(network(5000, "blue", "192.168.100.0/24"))
        .unwrap();
    let p = t.create_port(5000, "h1", "tapA", None, None).unwrap();

    let snap = t.to_snapshot();
    let restored = Topology::from_snapshot(&snap);
    assert_eq!(derive_configs_str(&t), derive_configs_str(&restored));
    assert_eq!(restored.ports(), &vec![p]);
}

#[test]
fn removing_a_port_withdraws_it_from_peer_configs() {
    let mut t = Topology::new();
    t.add_host(host("h1", "10.10.0.1", 0x11));
    t.add_host(host("h2", "10.10.0.2", 0x22));
    t.add_network(network(5000, "blue", "192.168.100.0/24"))
        .unwrap();
    t.create_port(5000, "h1", "tapA", None, None).unwrap();
    let pb = t.create_port(5000, "h2", "tapB", None, None).unwrap();

    assert_eq!(t.derive("h1").unwrap().tunnels.len(), 1);
    assert!(t.remove_port(&pb.id));
    let cfg = t.derive("h1").unwrap();
    assert!(cfg.tunnels.is_empty());
    assert!(cfg.neighbors.is_empty());
}

#[test]
fn migrating_a_port_preserves_identity_and_repoints_peers() {
    let mut t = Topology::new();
    t.add_host(host("h1", "10.10.0.1", 0x11));
    t.add_host(host("h2", "10.10.0.2", 0x22));
    t.add_host(host("h3", "10.10.0.3", 0x33));
    t.add_network(network(5000, "blue", "192.168.100.0/24"))
        .unwrap();
    let pa = t.create_port(5000, "h1", "tapA", None, None).unwrap();
    t.create_port(5000, "h3", "tapC", None, None).unwrap();

    let h3 = t.derive("h3").unwrap();
    assert_eq!(h3.tunnels[0].inner_dst, format!("{}/32", pa.ip.to_string()));
    assert_eq!(h3.tunnels[0].remote_vtep, "10.10.0.1");

    let moved = t.migrate_port(&pa.id, "h2", "tapA2").unwrap();
    assert_eq!(moved.id, pa.id);
    assert_eq!(moved.ip, pa.ip);
    assert_eq!(moved.mac, pa.mac);
    assert_eq!(moved.host, "h2");
    assert_eq!(moved.tap, "tapA2");

    let h2 = t.derive("h2").unwrap();
    assert!(h2.interfaces.iter().any(|i| i.name == "tapA2"));
    let h3 = t.derive("h3").unwrap();
    assert_eq!(h3.tunnels[0].inner_dst, format!("{}/32", pa.ip.to_string()));
    assert_eq!(h3.tunnels[0].remote_vtep, "10.10.0.2");
    let h1 = t.derive("h1").unwrap();
    assert!(!h1.interfaces.iter().any(|i| i.name == "tapA"));

    assert!(t.migrate_port(&pa.id, "ghost", "tap").is_err());
    assert!(t.migrate_port("port-nope", "h2", "tap").is_err());
}

#[test]
fn port_policy_decouples_from_vni() {
    let mut t = Topology::new();
    t.add_host(host("h1", "10.10.0.1", 0x11));
    t.add_network(network(5000, "blue", "192.168.100.0/24"))
        .unwrap();

    let p = t.create_port(5000, "h1", "tapSG", None, Some(42)).unwrap();
    assert_eq!(p.effective_policy(), 42);

    let cfg = t.derive("h1").unwrap();
    let iface = cfg.interfaces.iter().find(|i| i.name == "tapSG").unwrap();
    assert_eq!(
        iface.policy, 42,
        "interface firewall policy == security group"
    );
    assert_eq!(
        iface.vni,
        Some(5000),
        "…while staying on VNI 5000's segment"
    );

    let d = t.create_port(5000, "h1", "tapDef", None, None).unwrap();
    assert_eq!(d.effective_policy(), 5000);

    let restored = Topology::from_snapshot(&t.to_snapshot());
    let rp = restored.ports().iter().find(|q| q.id == p.id).unwrap();
    assert_eq!(rp.policy, Some(42));
}

#[test]
fn security_group_policy_id_is_deterministic_ordered_and_in_band() {
    let a1 = security_group_policy_id("web");
    let a2 = security_group_policy_id("web");
    assert_eq!(a1, a2);
    assert_eq!(
        sg("web", vec![rule(ProtoName::Tcp, 80, ActionName::Pass)]).policy_id(),
        sg("web", vec![]).policy_id(),
        "id depends only on the name, not the rules — stable across edits"
    );

    assert_ne!(a1, security_group_policy_id("db"));

    for name in ["web", "db", "", "a-very-long-security-group-name-42"] {
        let pid = security_group_policy_id(name);
        assert!(pid >= SECURITY_GROUP_POLICY_BASE);
        assert!(pid > EVPN_RESERVED_VNI_BASE);
        assert!(pid > 0xFF_FFFF, "must sit above the whole 24-bit VNI space");
    }
}

#[test]
fn add_security_group_rejects_empty_and_duplicate_names() {
    let mut t = Topology::new();
    assert!(t.add_security_group(sg("", vec![])).is_err()); // empty name
    t.add_security_group(sg("web", vec![])).unwrap();
    assert!(t.add_security_group(sg("web", vec![])).is_err()); // duplicate
    t.add_security_group(sg("db", vec![])).unwrap();
    assert!(t.security_group("web").is_some());
    assert_eq!(t.security_groups().len(), 2);
    assert!(t.security_group("missing").is_none());
}

#[test]
fn bind_and_unbind_port_resolves_security_group_policy_id() {
    let mut t = Topology::new();
    t.add_host(host("h1", "10.0.0.1", 1));
    t.add_network(network(100, "blue", "192.168.50.0/24"))
        .unwrap();
    t.add_security_group(sg("web", vec![])).unwrap();
    let p = t.create_port(100, "h1", "tap0", None, None).unwrap();
    assert_eq!(p.effective_policy(), 100); // defaults to the VNI

    let bound = t.set_port_security_group(&p.id, Some("web")).unwrap();
    assert_eq!(bound.policy, Some(security_group_policy_id("web")));
    assert_eq!(bound.effective_policy(), security_group_policy_id("web"));

    let cleared = t.set_port_security_group(&p.id, None).unwrap();
    assert_eq!(cleared.policy, None);
    assert_eq!(cleared.effective_policy(), 100);

    assert!(t.set_port_security_group("nope", Some("web")).is_err());
    assert!(t.set_port_security_group(&p.id, Some("ghost")).is_err());
}

#[test]
fn derive_emits_bound_security_group_as_a_resolvable_policy() {
    let mut t = Topology::new();
    t.add_host(host("h1", "10.10.0.1", 0x11));
    t.add_network(network(5000, "blue", "192.168.100.0/24"))
        .unwrap();
    t.add_security_group(sg(
        "web",
        vec![
            rule(ProtoName::Tcp, 80, ActionName::Pass),
            rule(ProtoName::Tcp, 22, ActionName::Drop),
        ],
    ))
    .unwrap();

    let p = t.create_port(5000, "h1", "tapW", None, None).unwrap();
    t.set_port_security_group(&p.id, Some("web")).unwrap();
    let pid = security_group_policy_id("web");

    let cfg = t.derive("h1").unwrap();
    let rt = &cfg;

    let iface = rt.interfaces.iter().find(|i| i.name == "tapW").unwrap();
    assert_eq!(iface.policy, pid);
    assert_eq!(iface.vni, Some(5000));

    let gp = rt.policies.iter().find(|pl| pl.id == pid).unwrap();
    assert!(gp.stateful);
    assert!(gp
        .port_rules
        .iter()
        .any(|r| r.proto == ProtoName::Tcp && r.port == 80 && r.action == ActionName::Pass));
    assert!(gp
        .port_rules
        .iter()
        .any(|r| r.proto == ProtoName::Tcp && r.port == 22 && r.action == ActionName::Drop));
    assert!(rt.policies.iter().any(|pl| pl.id == 5000));
}

#[test]
fn one_group_bound_by_many_ports_emits_a_single_policy_block() {
    let mut t = Topology::new();
    t.add_host(host("h1", "10.10.0.1", 0x11));
    t.add_network(network(5000, "blue", "192.168.100.0/24"))
        .unwrap();
    t.add_security_group(sg("web", vec![])).unwrap();
    for tap in ["tapA", "tapB", "tapC"] {
        let p = t.create_port(5000, "h1", tap, None, None).unwrap();
        t.set_port_security_group(&p.id, Some("web")).unwrap();
    }
    let pid = security_group_policy_id("web");
    let rt = t.derive("h1").unwrap();
    assert_eq!(
        rt.policies.iter().filter(|pl| pl.id == pid).count(),
        1,
        "the group is emitted exactly once, no matter how many ports bind it"
    );
}

#[test]
fn remove_security_group_is_blocked_while_a_port_binds_it() {
    let mut t = Topology::new();
    t.add_host(host("h1", "10.0.0.1", 1));
    t.add_network(network(100, "blue", "192.168.50.0/24"))
        .unwrap();
    t.add_security_group(sg("web", vec![])).unwrap();
    let p = t.create_port(100, "h1", "tap0", None, None).unwrap();
    t.set_port_security_group(&p.id, Some("web")).unwrap();

    assert!(t.remove_security_group("web").is_err());
    t.set_port_security_group(&p.id, None).unwrap();
    assert!(t.remove_security_group("web").unwrap());
    assert!(!t.remove_security_group("web").unwrap());
}

#[test]
fn security_groups_survive_a_snapshot_roundtrip() {
    let mut t = Topology::new();
    t.add_host(host("h1", "10.10.0.1", 0x11));
    t.add_network(network(5000, "blue", "192.168.100.0/24"))
        .unwrap();
    let mut g = sg("web", vec![rule(ProtoName::Tcp, 443, ActionName::Pass)]);
    g.blocklist = vec!["203.0.113.0/24".to_string()];
    t.add_security_group(g.clone()).unwrap();
    let p = t.create_port(5000, "h1", "tapW", None, None).unwrap();
    t.set_port_security_group(&p.id, Some("web")).unwrap();

    let restored = Topology::from_snapshot(&t.to_snapshot());
    assert_eq!(restored.security_group("web"), Some(&g));
    let rp = restored.ports().iter().find(|q| q.id == p.id).unwrap();
    assert_eq!(rp.policy, Some(security_group_policy_id("web")));
    assert_eq!(
        format!("{:?}", t.derive("h1")),
        format!("{:?}", restored.derive("h1"))
    );
}

#[test]
fn refusals_say_why() {
    let mut t = Topology::new();
    t.add_host(host("h1", "10.0.0.1", 1));
    t.add_network(network(100, "blue", "192.168.50.0/24")).unwrap();
    let ghost = t.create_port(100, "ghost", "tap0", None, None).unwrap_err();
    assert!(ghost.message.contains("\"ghost\""), "{}", ghost.message);
    let missing = t.create_port(7, "h1", "tap0", None, None).unwrap_err();
    assert!(missing.message.contains("7"), "{}", missing.message);
    assert!(t.remove_network(8) == Ok(false));
}

#[test]
fn a_full_network_has_no_address_left() {
    let mut t = Topology::new();
    t.add_host(host("h1", "10.0.0.1", 1));
    t.add_network(network(100, "tiny", "10.9.0.0/30")).unwrap();
    assert_eq!(t.create_port(100, "h1", "tap0", None, None).unwrap().ip, v4("10.9.0.1"));
    assert_eq!(t.create_port(100, "h1", "tap1", None, None).unwrap().ip, v4("10.9.0.2"));
    assert!(t.create_port(100, "h1", "tap2", None, None).is_err());
}

#[test]
fn a_snapshot_that_lacks_a_network_cannot_be_derived_from() {
    let mut t = Topology::new();
    t.add_host(host("h1", "10.0.0.1", 1));
    t.add_network(network(100, "blue", "192.168.50.0/24")).unwrap();
    t.create_port(100, "h1", "tap0", None, None).unwrap();
    assert!(t.can_derive("h1"));
    assert!(t.is_wf() && Topology::new().is_wf());
    let mut snap = t.to_snapshot();
    assert!(snap.usable());
    snap.networks.clear();
    assert!(!Topology::from_snapshot(&snap).can_derive("h1"));
    assert!(!Topology::from_snapshot(&snap).is_wf());
    let mut twice = t.to_snapshot();
    let mut again = t.to_snapshot();
    twice.ports.append(&mut again.ports);
    assert!(!Topology::from_snapshot(&twice).is_wf());
    let mut elsewhere = t.to_snapshot();
    elsewhere.ports[0].id = "port-100-192.168.50.9".to_string();
    assert!(!Topology::from_snapshot(&elsewhere).is_wf());
    let mut reserved = t.to_snapshot();
    reserved.ports.clear();
    reserved.networks[0].vni = EVPN_RESERVED_VNI_BASE;
    assert!(!Topology::from_snapshot(&reserved).is_wf());
    assert_eq!(t.port("port-100-192.168.50.1").unwrap().tap, "tap0");
    assert!(t.port("port-100-192.168.50.2").is_none());
}
