//! The fabric file: reading it, deriving from it, writing it back.

use toml::{Table, Value};
use velstra::addr::{IpAddr, Ipv6Addr};
use velstra::config::{ActionName, EncapName, FileConfig, PortRule, ProtoName};
use velstra::evpn::{EvpnLearned, EvpnMonitorEvent};
use velstra::evpn_fold::{derived_multicast_sid, derived_unicast_sid, learned_routes, srv6_src};
use velstra::fabric_config::{derive_configs, derive_host};
use velstra::live::LiveFabric;
use velstra::orchestrator::{security_group_policy_id, EVPN_RESERVED_VNI_BASE};
use velstra::sorted::{SortedMap, TextKey};
use velstra::srv6::{srv6_service_sid, Locator, DISC_MULTICAST, DISC_UNICAST};
use velstra::srv6_report::{srv6_divergences, srv6_irb_gated_sids};
use velstra::store::{HostSpec, Subnet, SubnetCidr, SubnetSpec, TopoRequest};
use velstra::topology::{
    build, Fabric, HostFile, IpVrf, IpVrfFile, LbMemberFile, LoadBalancerFile, NetworkFile,
    PortFile, SecurityGroupFile, SubnetFile, TopologyFile,
};
use velstra::topology_save::to_file;

fn ip(s: &str) -> IpAddr {
    IpAddr::parse(s).unwrap()
}

fn v6(s: &str) -> Ipv6Addr {
    Ipv6Addr::parse(s).unwrap()
}

fn text(t: &Table, key: &str) -> String {
    t[key].as_str().unwrap().to_string()
}

fn opt_text(t: &Table, key: &str) -> Option<String> {
    t.get(key).map(|v| v.as_str().unwrap().to_string())
}

fn number(t: &Table, key: &str) -> u32 {
    t[key].as_integer().unwrap() as u32
}

fn opt_number(t: &Table, key: &str) -> Option<u32> {
    t.get(key).map(|v| v.as_integer().unwrap() as u32)
}

fn flag(t: &Table, key: &str) -> bool {
    t.get(key).map(|v| v.as_bool().unwrap()).unwrap_or(false)
}

fn tables<'a>(t: &'a Table, key: &str) -> Vec<&'a Table> {
    match t.get(key) {
        Some(v) => v.as_array().unwrap().iter().map(|x| x.as_table().unwrap()).collect(),
        None => Vec::new(),
    }
}

fn texts(t: &Table, key: &str) -> Vec<String> {
    match t.get(key) {
        Some(v) => v.as_array().unwrap().iter().map(|x| x.as_str().unwrap().to_string()).collect(),
        None => Vec::new(),
    }
}

fn action(word: Option<String>) -> ActionName {
    match word.as_deref() {
        None | Some("pass") => ActionName::Pass,
        Some("drop") => ActionName::Drop,
        Some("reject") => ActionName::Reject,
        Some(other) => panic!("no action {other}"),
    }
}

fn proto(word: Option<String>) -> ProtoName {
    match word.as_deref() {
        None | Some("tcp") => ProtoName::Tcp,
        Some("udp") => ProtoName::Udp,
        Some("icmp") => ProtoName::Icmp,
        Some(other) => panic!("no protocol {other}"),
    }
}

fn encap(word: Option<String>) -> EncapName {
    match word.as_deref() {
        None | Some("vxlan") => EncapName::Vxlan,
        Some("geneve") => EncapName::Geneve,
        Some("srv6") => EncapName::Srv6,
        Some(other) => panic!("no encapsulation {other}"),
    }
}

fn parsed(toml: &str) -> TopologyFile {
    let t: Table = toml::from_str(toml).unwrap();
    TopologyFile {
        hosts: tables(&t, "host")
            .into_iter()
            .map(|h| HostFile {
                id: text(h, "id"),
                vtep: text(h, "vtep"),
                underlay_iface: text(h, "underlay_iface"),
                underlay_mac: text(h, "underlay_mac"),
                encap: encap(opt_text(h, "encap")),
                udp_port: opt_number(h, "udp_port").map(|n| n as u16),
                underlay_mtu: opt_number(h, "underlay_mtu").map(|n| n as u16),
                srv6_locator: opt_text(h, "srv6_locator"),
            })
            .collect(),
        networks: tables(&t, "network")
            .into_iter()
            .map(|n| NetworkFile {
                vni: number(n, "vni"),
                name: text(n, "name"),
                subnet: text(n, "subnet"),
                default_action: action(opt_text(n, "default_action")),
                drop_icmp: flag(n, "drop_icmp"),
            })
            .collect(),
        subnets: tables(&t, "subnet")
            .into_iter()
            .map(|s| SubnetFile {
                id: text(s, "id"),
                vni: number(s, "vni"),
                cidr: text(s, "cidr"),
                gateway: opt_text(s, "gateway"),
                pool_start: opt_text(s, "pool_start"),
                pool_end: opt_text(s, "pool_end"),
                enable_dhcp: flag(s, "enable_dhcp"),
            })
            .collect(),
        security_groups: tables(&t, "security_group")
            .into_iter()
            .map(|g| SecurityGroupFile {
                name: text(g, "name"),
                default_action: action(opt_text(g, "default_action")),
                drop_icmp: flag(g, "drop_icmp"),
                stateful: flag(g, "stateful"),
                blocklist: texts(g, "blocklist"),
                rules: tables(g, "rule")
                    .into_iter()
                    .map(|r| PortRule {
                        proto: proto(opt_text(r, "proto")),
                        port: number(r, "port") as u16,
                        action: action(opt_text(r, "action")),
                        log: flag(r, "log"),
                        src: opt_text(r, "src"),
                    })
                    .collect(),
            })
            .collect(),
        ip_vrfs: tables(&t, "ip_vrf")
            .into_iter()
            .map(|v| IpVrfFile {
                l3_vni: number(v, "l3_vni"),
                name: text(v, "name"),
                gateway_mac: text(v, "gateway_mac"),
                networks: v["networks"]
                    .as_array()
                    .unwrap()
                    .iter()
                    .map(|n| n.as_integer().unwrap() as u32)
                    .collect(),
            })
            .collect(),
        load_balancers: tables(&t, "load_balancer")
            .into_iter()
            .map(|l| LoadBalancerFile {
                id: text(l, "id"),
                vni: number(l, "vni"),
                vip: text(l, "vip"),
                port: number(l, "port") as u16,
                proto: proto(opt_text(l, "proto")),
                members: tables(l, "member")
                    .into_iter()
                    .map(|m| LbMemberFile {
                        host: text(m, "host"),
                        tap: text(m, "tap"),
                        port: opt_number(m, "port").unwrap_or(0) as u16,
                    })
                    .collect(),
            })
            .collect(),
        ports: tables(&t, "port")
            .into_iter()
            .map(|p| PortFile {
                network: number(p, "network"),
                host: text(p, "host"),
                tap: text(p, "tap"),
                ip: opt_text(p, "ip"),
                policy: opt_number(p, "policy"),
                security_group: opt_text(p, "security_group"),
                mac: opt_text(p, "mac"),
            })
            .collect(),
    }
}

fn put(t: &mut Table, key: &str, v: &str) {
    t.insert(key.to_string(), Value::String(v.to_string()));
}

fn put_opt(t: &mut Table, key: &str, v: &Option<String>) {
    if let Some(s) = v {
        put(t, key, s);
    }
}

fn put_number(t: &mut Table, key: &str, n: u32) {
    t.insert(key.to_string(), Value::Integer(n as i64));
}

fn word_of(a: ActionName) -> &'static str {
    match a {
        ActionName::Pass => "pass",
        ActionName::Drop => "drop",
        ActionName::Reject => "reject",
    }
}

/// The parts of a file that the tests write back.
fn written(tf: &TopologyFile) -> Table {
    let mut all = Table::new();
    let mut list = Vec::new();
    for h in &tf.hosts {
        let mut t = Table::new();
        put(&mut t, "id", &h.id);
        put(&mut t, "vtep", &h.vtep);
        put(&mut t, "underlay_iface", &h.underlay_iface);
        put(&mut t, "underlay_mac", &h.underlay_mac);
        put_opt(&mut t, "srv6_locator", &h.srv6_locator);
        list.push(Value::Table(t));
    }
    all.insert("host".to_string(), Value::Array(list));
    let mut list = Vec::new();
    for n in &tf.networks {
        let mut t = Table::new();
        put_number(&mut t, "vni", n.vni);
        put(&mut t, "name", &n.name);
        put(&mut t, "subnet", &n.subnet);
        put(&mut t, "default_action", word_of(n.default_action));
        t.insert("drop_icmp".to_string(), Value::Boolean(n.drop_icmp));
        list.push(Value::Table(t));
    }
    all.insert("network".to_string(), Value::Array(list));
    let mut list = Vec::new();
    for s in &tf.subnets {
        let mut t = Table::new();
        put(&mut t, "id", &s.id);
        put_number(&mut t, "vni", s.vni);
        put(&mut t, "cidr", &s.cidr);
        put_opt(&mut t, "gateway", &s.gateway);
        put_opt(&mut t, "pool_start", &s.pool_start);
        put_opt(&mut t, "pool_end", &s.pool_end);
        list.push(Value::Table(t));
    }
    all.insert("subnet".to_string(), Value::Array(list));
    let mut list = Vec::new();
    for g in &tf.security_groups {
        let mut t = Table::new();
        put(&mut t, "name", &g.name);
        put(&mut t, "default_action", word_of(g.default_action));
        list.push(Value::Table(t));
    }
    all.insert("security_group".to_string(), Value::Array(list));
    let mut list = Vec::new();
    for p in &tf.ports {
        let mut t = Table::new();
        put_number(&mut t, "network", p.network);
        put(&mut t, "host", &p.host);
        put(&mut t, "tap", &p.tap);
        put_opt(&mut t, "ip", &p.ip);
        put_opt(&mut t, "security_group", &p.security_group);
        put_opt(&mut t, "mac", &p.mac);
        if let Some(n) = p.policy {
            put_number(&mut t, "policy", n);
        }
        list.push(Value::Table(t));
    }
    all.insert("port".to_string(), Value::Array(list));
    all
}

fn model(toml: &str) -> Fabric {
    match build(&parsed(toml)) {
        Ok(f) => f,
        Err(e) => panic!("{}", e.message),
    }
}

fn config<'a>(cfgs: &'a SortedMap<TextKey, FileConfig>, id: &str) -> &'a FileConfig {
    cfgs.get(&TextKey { text: id.to_string() }).unwrap()
}

fn subnet<'a>(f: &'a Fabric, id: &str) -> &'a Subnet {
    f.subnets.get(&TextKey { text: id.to_string() }).unwrap()
}

fn vrf_of_network(f: &Fabric, vni: u32) -> Option<&IpVrf> {
    f.ip_vrfs.items().iter().map(|i| &i.value).find(|v| v.networks.contains(&vni))
}

#[test]
fn derives_two_host_fabric_from_a_file() {
    let toml = r#"
        [[host]]
        id = "h1"
        vtep = "10.10.0.1"
        underlay_iface = "eth0"
        underlay_mac = "02:00:00:00:00:11"

        [[host]]
        id = "h2"
        vtep = "10.10.0.2"
        underlay_iface = "eth0"
        underlay_mac = "02:00:00:00:00:22"

        [[network]]
        vni = 5000
        name = "blue"
        subnet = "192.168.100.0/24"

        [[port]]
        network = 5000
        host = "h1"
        tap = "tapA"

        [[port]]
        network = 5000
        host = "h2"
        tap = "tapB"
    "#;
    let topo = model(toml);
    let configs = derive_configs(&topo, None);

    assert_eq!(configs.items().len(), 2);
    let h1 = config(&configs, "h1");
    assert!(h1.interfaces.iter().any(|i| i.name == "tapA"));
    assert_eq!(h1.tunnels.len(), 1);
    assert_eq!(h1.tunnels[0].remote_vtep, "10.10.0.2");
    assert_eq!(h1.neighbors.len(), 1);
    assert!(h1.overlay.is_some());
}

#[test]
fn save_then_load_reproduces_the_model() {
    let toml = r#"
        [[host]]
        id = "h1"
        vtep = "10.10.0.1"
        underlay_iface = "eth0"
        underlay_mac = "02:00:00:00:00:11"
        [[host]]
        id = "h2"
        vtep = "10.10.0.2"
        underlay_iface = "eth0"
        underlay_mac = "02:00:00:00:00:22"
        [[network]]
        vni = 5000
        name = "blue"
        subnet = "192.168.100.0/24"
        [[port]]
        network = 5000
        host = "h1"
        tap = "tapA"
    "#;
    let original = model(toml);

    let serialised = toml::to_string_pretty(&written(&to_file(&original))).unwrap();
    let reloaded = model(&serialised);

    assert_eq!(reloaded.topo.ports().len(), 1);
    assert_eq!(reloaded.topo.ports()[0].id, original.topo.ports()[0].id);
    assert_eq!(reloaded.topo.ports()[0].ip, original.topo.ports()[0].ip);
    let a = derive_configs(&original, None);
    let b = derive_configs(&reloaded, None);
    assert_eq!(a, b);
}

#[test]
fn folds_evpn_learned_type2_routes_into_derived_config() {
    let toml = r#"
        [[host]]
        id = "h1"
        vtep = "10.10.0.1"
        underlay_iface = "eth0"
        underlay_mac = "02:00:00:00:00:11"
        [[host]]
        id = "h2"
        vtep = "10.10.0.2"
        underlay_iface = "eth0"
        underlay_mac = "02:00:00:00:00:22"
        [[network]]
        vni = 5000
        name = "blue"
        subnet = "192.168.100.0/24"
        [[port]]
        network = 5000
        host = "h1"
        tap = "tapA"
    "#;
    let topo = model(toml);

    let base = derive_configs(&topo, None);
    assert!(config(&base, "h1").tunnels.is_empty());
    assert!(config(&base, "h1").neighbors.is_empty());

    let evpn_vni = EVPN_RESERVED_VNI_BASE;
    let mut learned = EvpnLearned::new();
    assert!(learned.apply(&EvpnMonitorEvent::MacUpdate {
        vni: evpn_vni,
        mac: [0xaa, 0xbb, 0xcc, 0xdd, 0xee, 0xff],
        ip: Some(ip("192.168.100.50")),
        vtep: ip("10.10.0.2"),
        srv6_sid: None,
    }));
    assert!(learned.apply(&EvpnMonitorEvent::MacUpdate {
        vni: evpn_vni,
        mac: [0x11, 0x22, 0x33, 0x44, 0x55, 0x66],
        ip: None, // MAC-only: held, not programmed
        vtep: ip("10.10.0.2"),
        srv6_sid: None,
    }));
    assert!(learned.apply(&EvpnMonitorEvent::MacUpdate {
        vni: evpn_vni,
        mac: [0xde, 0xad, 0xbe, 0xef, 0x00, 0x06],
        ip: Some(ip("2001:db8::50")),
        vtep: ip("10.10.0.2"),
        srv6_sid: None,
    }));
    assert!(learned.apply(&EvpnMonitorEvent::FloodUpdate {
        vni: evpn_vni,
        vtep: ip("10.10.0.2"),
        srv6_sid: None,
    }));
    assert!(learned.apply(&EvpnMonitorEvent::FloodUpdate {
        vni: evpn_vni,
        vtep: ip("203.0.113.9"),
        srv6_sid: None,
    }));

    let cfg = derive_configs(&topo, Some(&learned_routes(&learned)));
    let h1 = config(&cfg, "h1");

    assert_eq!(h1.tunnels.len(), 1);
    assert_eq!(h1.neighbors.len(), 1);

    assert_eq!(h1.nd_neighbors.len(), 1);
    let nd = &h1.nd_neighbors[0];
    assert_eq!(nd.vni, evpn_vni);
    assert_eq!(nd.ip, "2001:db8::50");
    assert_eq!(nd.mac, "de:ad:be:ef:00:06");
    assert!(
        !h1.neighbors.iter().any(|n| n.mac == "de:ad:be:ef:00:06"),
        "v6 entry must not produce a v4 ARP neighbor"
    );
    assert!(
        !h1.tunnels.iter().any(|t| t.inner_dst.contains(':')),
        "v6 entry must not produce a v4 L3 tunnel"
    );

    let t = &h1.tunnels[0];
    assert_eq!(t.vni, evpn_vni);
    assert_eq!(t.inner_dst, "192.168.100.50/32");
    assert_eq!(t.remote_vtep, "10.10.0.2");
    assert_eq!(t.via_mac, "02:00:00:00:00:22");
    assert_eq!(t.out_iface, "eth0");

    let n = &h1.neighbors[0];
    assert_eq!(n.vni, evpn_vni);
    assert_eq!(n.ip, "192.168.100.50");
    assert_eq!(n.mac, "aa:bb:cc:dd:ee:ff");

    assert_eq!(h1.mac_routes.len(), 3);
    let mac_ip = h1
        .mac_routes
        .iter()
        .find(|m| m.mac == "aa:bb:cc:dd:ee:ff")
        .expect("MAC/IP entry has a mac route");
    assert_eq!(mac_ip.vni, evpn_vni);
    assert_eq!(mac_ip.remote_vtep, "10.10.0.2");
    assert_eq!(mac_ip.via_mac, "02:00:00:00:00:22");
    assert_eq!(mac_ip.out_iface, "eth0");

    let mac_only = h1
        .mac_routes
        .iter()
        .find(|m| m.mac == "11:22:33:44:55:66")
        .expect("MAC-only entry has a mac route");
    assert_eq!(mac_only.vni, evpn_vni);
    assert_eq!(mac_only.remote_vtep, "10.10.0.2");
    assert_eq!(mac_only.via_mac, "02:00:00:00:00:22");
    assert_eq!(mac_only.out_iface, "eth0");

    assert!(
        !h1.tunnels
            .iter()
            .any(|t| t.inner_dst.starts_with("0.0.0.0"))
    );
    assert!(
        !h1.neighbors.iter().any(|n| n.mac == "11:22:33:44:55:66"),
        "MAC-only entry must not produce a neighbor"
    );
    assert_eq!(
        h1.mac_routes
            .iter()
            .filter(|m| m.mac == "11:22:33:44:55:66")
            .count(),
        1,
        "MAC-only entry produces exactly one mac route"
    );

    assert_eq!(h1.flood_vteps.len(), 1);
    let fv = &h1.flood_vteps[0];
    assert_eq!(fv.vni, evpn_vni);
    assert_eq!(fv.remote_vtep, "10.10.0.2");
    assert_eq!(fv.via_mac, "02:00:00:00:00:22");
    assert_eq!(fv.out_iface, "eth0");
}

#[test]
fn derives_irb_routes_from_type5_across_the_tenants_segments() {
    let toml = r#"
        [[host]]
        id = "h1"
        vtep = "10.10.0.1"
        underlay_iface = "eth0"
        underlay_mac = "02:00:00:00:00:11"

        [[host]]
        id = "h2"
        vtep = "10.10.0.2"
        underlay_iface = "eth0"
        underlay_mac = "02:00:00:00:00:22"

        [[network]]
        vni = 5000
        name = "blue"
        subnet = "192.168.100.0/24"

        [[network]]
        vni = 5001
        name = "green"
        subnet = "192.168.101.0/24"

        [[ip_vrf]]
        l3_vni = 50100
        name = "tenant-a"
        gateway_mac = "02:00:5e:00:00:aa"
        networks = [5000, 5001]
    "#;
    let topo = model(toml);

    let mut evpn = EvpnLearned::new();
    let learn = |vni, prefix: &str, mac| EvpnMonitorEvent::PrefixUpdate {
        l3_vni: vni,
        prefix: prefix.into(),
        vtep: ip("10.10.0.2"),
        router_mac: mac,
        gw: None,
        srv6_sid: None,
    };
    let rmac = [0x02, 0x00, 0x5e, 0x00, 0x00, 0xbb];
    evpn.apply(&learn(50100, "10.20.0.0/24", Some(rmac)));
    evpn.apply(&learn(50100, "10.21.0.0/24", None));
    evpn.apply(&learn(50999, "10.22.0.0/24", Some(rmac)));

    let cfgs = derive_configs(&topo, Some(&learned_routes(&evpn)));
    let h1 = config(&cfgs, "h1");
    let mut got: Vec<_> = h1
        .irb_routes
        .iter()
        .map(|r| (r.vni, r.inner_dst.as_str(), r.l3_vni))
        .collect();
    got.sort();
    assert_eq!(
        got,
        vec![(5000, "10.20.0.0/24", 50100), (5001, "10.20.0.0/24", 50100)]
    );
    let r = &h1.irb_routes[0];
    assert_eq!(r.router_mac, "02:00:5e:00:00:bb");
    assert_eq!(r.gateway_mac, "02:00:5e:00:00:aa");
    assert_eq!(r.remote_vtep, "10.10.0.2");
    assert_eq!(r.via_mac, "02:00:00:00:00:22");
    assert_eq!(r.out_iface, "eth0");

    assert!(config(&cfgs, "h2").irb_routes.is_empty());
}

#[test]
fn an_srv6_host_learns_into_the_srv6_tables() {
    let toml = r#"
        [[host]]
        id = "h1"
        vtep = "10.10.0.1"
        underlay_iface = "eth0"
        underlay_mac = "02:00:00:00:00:11"
        encap = "srv6"
        srv6_locator = "fc00:0:1::/64"

        [[host]]
        id = "h2"
        vtep = "10.10.0.2"
        underlay_iface = "eth0"
        underlay_mac = "02:00:00:00:00:22"
        encap = "srv6"
        srv6_locator = "fc00:0:2::/64"

        [[network]]
        vni = 5000
        name = "blue"
        subnet = "192.168.100.0/24"

        [[ip_vrf]]
        l3_vni = 50100
        name = "tenant-a"
        gateway_mac = "02:00:5e:00:00:aa"
        networks = [5000]
    "#;
    let topo = model(toml);

    let mut evpn = EvpnLearned::new();
    let advertised: Ipv6Addr = v6("fc00:0:2:0:aaaa::");
    evpn.apply(&EvpnMonitorEvent::MacUpdate {
        vni: 5000,
        mac: [0x02, 0x00, 0x5e, 0x00, 0x00, 0x01],
        ip: Some(ip("192.168.100.5")),
        vtep: ip("10.10.0.2"),
        srv6_sid: Some(advertised),
    });
    evpn.apply(&EvpnMonitorEvent::FloodUpdate {
        vni: 5000,
        vtep: ip("10.10.0.2"),
        srv6_sid: None,
    });
    evpn.apply(&EvpnMonitorEvent::PrefixUpdate {
        l3_vni: 50100,
        prefix: "10.20.0.0/24".into(),
        vtep: ip("10.10.0.2"),
        router_mac: Some([0x02, 0x00, 0x5e, 0x00, 0x00, 0xbb]),
        gw: None,
        srv6_sid: Some(v6("fc00:0:2:2:c3b4::")),
    });

    let cfgs = derive_configs(&topo, Some(&learned_routes(&evpn)));
    let h1 = config(&cfgs, "h1");

    assert!(h1.mac_routes.is_empty(), "{:?}", h1.mac_routes);
    assert!(h1.tunnels.is_empty(), "{:?}", h1.tunnels);
    assert!(h1.flood_vteps.is_empty(), "{:?}", h1.flood_vteps);
    assert!(h1.irb_routes.is_empty(), "{:?}", h1.irb_routes);

    let learned: Vec<_> = h1
        .srv6_routes
        .iter()
        .filter(|r| r.mac == "02:00:5e:00:00:01")
        .collect();
    assert_eq!(learned.len(), 1, "{:?}", h1.srv6_routes);
    assert_eq!(learned[0].remote_sid, advertised.to_string());
    assert_eq!(learned[0].via_mac, "02:00:00:00:00:22");

    assert!(h1.neighbors.iter().any(|n| n.ip == "192.168.100.5"));

    assert_eq!(h1.srv6_floods.len(), 1, "{:?}", h1.srv6_floods);
    assert_eq!(h1.srv6_floods[0].remote_sid, "fc00:0:2:0:100:1388::");
    assert_eq!(h1.srv6_floods[0].vni, 5000);

    assert_eq!(h1.srv6_irb_routes.len(), 1, "{:?}", h1.srv6_irb_routes);
    let irb = &h1.srv6_irb_routes[0];
    assert_eq!((irb.vni, irb.l3_vni), (5000, 50100));
    assert_eq!(irb.inner_dst, "10.20.0.0/24");
    assert_ne!(
        irb.remote_sid, "fc00:0:2:2:c3b4::",
        "the advertised End.DT4 SID must not be programmed: its payload is a bare IP \
         packet and this decap path refuses it"
    );
    assert_eq!(irb.router_mac, "02:00:5e:00:00:bb");
    assert_eq!(irb.gateway_mac, "02:00:5e:00:00:aa");

    let own_l3: Vec<_> = h1
        .srv6_local_sids
        .iter()
        .filter(|ls| ls.vni == 50100)
        .collect();
    assert_eq!(own_l3.len(), 1, "{:?}", h1.srv6_local_sids);
    assert_eq!(own_l3[0].sid, "fc00:0:1::c3b4:0:0");
    assert_eq!(own_l3[0].behavior.as_deref(), Some("end.dt2u"));
    assert_ne!(own_l3[0].sid, irb.remote_sid);

}

#[test]
fn a_learned_type5_l3_sid_is_gated_not_authoritative() {
    let toml = r#"
        [[host]]
        id = "h1"
        vtep = "10.10.0.1"
        underlay_iface = "eth0"
        underlay_mac = "02:00:00:00:00:11"
        encap = "srv6"
        srv6_locator = "fc00:0:1::/64"

        [[host]]
        id = "h2"
        vtep = "10.10.0.2"
        underlay_iface = "eth0"
        underlay_mac = "02:00:00:00:00:22"
        encap = "srv6"
        srv6_locator = "fc00:0:2::/64"

        [[network]]
        vni = 5000
        name = "blue"
        subnet = "192.168.100.0/24"

        [[ip_vrf]]
        l3_vni = 50100
        name = "tenant-a"
        gateway_mac = "02:00:5e:00:00:aa"
        networks = [5000]
    "#;
    let topo = model(toml);

    let advertised_dt4: Ipv6Addr = v6("fc00:dead:beef:4::c3b4");
    let mut evpn = EvpnLearned::new();
    evpn.apply(&EvpnMonitorEvent::PrefixUpdate {
        l3_vni: 50100,
        prefix: "10.20.0.0/24".into(),
        vtep: ip("10.10.0.2"),
        router_mac: Some([0x02, 0x00, 0x5e, 0x00, 0x00, 0xbb]),
        gw: None,
        srv6_sid: Some(advertised_dt4),
    });

    let programmed = derived_unicast_sid(&topo, topo.topo.host("h2").unwrap(), 50100)
        .expect("h2 has a locator");
    assert_ne!(
        programmed, advertised_dt4,
        "the fabric must not derive the DT4 SID"
    );

    let cfgs = derive_configs(&topo, Some(&learned_routes(&evpn)));
    let h1 = config(&cfgs, "h1");

    assert_eq!(h1.srv6_irb_routes.len(), 1, "{:?}", h1.srv6_irb_routes);
    assert_eq!(h1.srv6_irb_routes[0].remote_sid, programmed.to_string());
    assert_ne!(h1.srv6_irb_routes[0].remote_sid, advertised_dt4.to_string());

    let gated = srv6_irb_gated_sids(&topo, &learned_routes(&evpn));
    assert_eq!(gated.len(), 1, "{gated:?}");
    assert_eq!(gated[0].l3_vni, 50100);
    assert_eq!(gated[0].prefix, "10.20.0.0/24");
    assert_eq!(gated[0].behavior, "end.dt4");
    assert_eq!(gated[0].learned_sid, advertised_dt4);
    assert_eq!(gated[0].programmed_sid, programmed);
}

#[test]
fn srv6_irb_gated_reports_only_refused_learned_l3_sids() {
    let toml = r#"
        [[host]]
        id = "h1"
        vtep = "10.10.0.1"
        underlay_iface = "eth0"
        underlay_mac = "02:00:00:00:00:11"
        encap = "srv6"
        srv6_locator = "fc00:0:1::/64"

        [[host]]
        id = "h2"
        vtep = "10.10.0.2"
        underlay_iface = "eth0"
        underlay_mac = "02:00:00:00:00:22"
        encap = "srv6"
        srv6_locator = "fc00:0:2::/64"

        [[network]]
        vni = 5000
        name = "blue"
        subnet = "192.168.100.0/24"

        [[ip_vrf]]
        l3_vni = 50100
        name = "tenant-a"
        gateway_mac = "02:00:5e:00:00:aa"
        networks = [5000]
    "#;
    let topo = model(toml);

    let mut evpn = EvpnLearned::new();
    evpn.apply(&EvpnMonitorEvent::PrefixUpdate {
        l3_vni: 50100,
        prefix: "10.20.0.0/24".into(),
        vtep: ip("10.10.0.2"),
        router_mac: Some([0x02, 0x00, 0x5e, 0x00, 0x00, 0xbb]),
        gw: None,
        srv6_sid: None,
    });
    evpn.apply(&EvpnMonitorEvent::PrefixUpdate {
        l3_vni: 60600,
        prefix: "10.30.0.0/24".into(),
        vtep: ip("10.10.0.2"),
        router_mac: Some([0x02, 0x00, 0x5e, 0x00, 0x00, 0xcc]),
        gw: None,
        srv6_sid: Some(v6("fc00:0:2:6::c3b4")),
    });

    assert!(
        srv6_irb_gated_sids(&topo, &learned_routes(&evpn)).is_empty(),
        "neither a no-SID route nor an unhosted-VRF route is a gated learned L3 SID"
    );

    // Without the router's MAC address no route is installed, so that nothing was refused.
    let mut evpn = EvpnLearned::new();
    evpn.apply(&EvpnMonitorEvent::PrefixUpdate {
        l3_vni: 50100,
        prefix: "10.20.0.0/24".into(),
        vtep: ip("10.10.0.2"),
        router_mac: None,
        gw: None,
        srv6_sid: Some(v6("fc00:dead:beef:4::c3b4")),
    });
    assert!(srv6_irb_gated_sids(&topo, &learned_routes(&evpn)).is_empty());
    let cfgs = derive_configs(&topo, Some(&learned_routes(&evpn)));
    assert!(config(&cfgs, "h1").srv6_irb_routes.is_empty());
}

#[test]
fn two_srv6_hosts_agree_on_every_sid_between_them() {
    let toml = r#"
        [[host]]
        id = "n1"
        vtep = "10.10.0.1"
        underlay_iface = "eth0"
        underlay_mac = "02:00:00:00:00:11"
        encap = "srv6"
        srv6_locator = "fc00:0:1::/64"

        [[host]]
        id = "n2"
        vtep = "10.10.0.2"
        underlay_iface = "eth0"
        underlay_mac = "02:00:00:00:00:22"
        encap = "srv6"
        srv6_locator = "fc00:0:2::/64"

        [[network]]
        vni = 5000
        name = "blue"
        subnet = "192.168.100.0/24"

        [[port]]
        network = 5000
        host = "n1"
        tap = "tap0"
        ip = "192.168.100.10"

        [[port]]
        network = 5000
        host = "n2"
        tap = "tap0"
        ip = "192.168.100.11"
    "#;
    let topo = model(toml);
    let cfgs = derive_configs(&topo, None);
    let (n1, n2) = (config(&cfgs, "n1"), config(&cfgs, "n2"));

    let instantiated = |c: &FileConfig| -> Vec<String> {
        c.srv6_local_sids.iter().map(|ls| ls.sid.clone()).collect()
    };

    for (from, to, name) in [(n1, n2, "n1 -> n2"), (n2, n1, "n2 -> n1")] {
        assert_eq!(from.srv6_routes.len(), 1, "{name}: {:?}", from.srv6_routes);
        let sid = &from.srv6_routes[0].remote_sid;
        assert!(
            instantiated(to).contains(sid),
            "{name}: encapsulates toward {sid}, which the far end does not \
             instantiate: {:?}",
            instantiated(to)
        );
        assert_eq!(from.srv6_floods.len(), 1, "{name}: {:?}", from.srv6_floods);
        let flood = &from.srv6_floods[0].remote_sid;
        assert_ne!(flood, sid, "{name}: one SID cannot carry both behaviours");
        assert!(
            instantiated(to).contains(flood),
            "{name}: floods toward {flood}, which the far end does not instantiate"
        );
        let src = &to.srv6.as_ref().expect("endpoint").local_src;
        assert!(
            from.srv6.as_ref().expect("endpoint").peers.contains(src),
            "{name}: does not trust {src}, so every frame it sends is refused"
        );
    }

    assert_eq!(n1.srv6_routes[0].via_mac, "02:00:00:00:00:22");
    assert_eq!(n2.srv6_routes[0].via_mac, "02:00:00:00:00:11");

    for (c, own) in [(n1, "fc00:0:1:"), (n2, "fc00:0:2:")] {
        for sid in c
            .srv6_routes
            .iter()
            .map(|r| &r.remote_sid)
            .chain(c.srv6_floods.iter().map(|f| &f.remote_sid))
        {
            assert!(
                !sid.starts_with(own),
                "encapsulates toward its own locator: {sid}"
            );
        }
    }
}

#[test]
fn a_learned_l2_sid_is_authoritative_over_derivation() {
    let toml = r#"
        [[host]]
        id = "h1"
        vtep = "10.10.0.1"
        underlay_iface = "eth0"
        underlay_mac = "02:00:00:00:00:11"
        encap = "srv6"
        srv6_locator = "fc00:0:1::/64"

        [[host]]
        id = "h2"
        vtep = "10.10.0.2"
        underlay_iface = "eth0"
        underlay_mac = "02:00:00:00:00:22"
        encap = "srv6"
        srv6_locator = "fc00:0:2::/64"

        [[network]]
        vni = 5000
        name = "blue"
        subnet = "192.168.100.0/24"
    "#;
    let topo = model(toml);

    let allocated: Ipv6Addr = v6("fc00:dead:beef:0:1234::");
    let derived = derived_unicast_sid(&topo, topo.topo.host("h2").unwrap(), 5000)
        .expect("h2 has a locator");
    assert_ne!(
        allocated, derived,
        "test SID must be one derive cannot produce"
    );

    let mut evpn = EvpnLearned::new();
    evpn.apply(&EvpnMonitorEvent::MacUpdate {
        vni: 5000,
        mac: [0x02, 0x00, 0x5e, 0x00, 0x00, 0x01],
        ip: None,
        vtep: ip("10.10.0.2"),
        srv6_sid: Some(allocated),
    });

    let cfgs = derive_configs(&topo, Some(&learned_routes(&evpn)));
    let h1 = config(&cfgs, "h1");

    assert_eq!(h1.srv6_routes.len(), 1, "{:?}", h1.srv6_routes);
    assert_eq!(h1.srv6_routes[0].remote_sid, allocated.to_string());
    assert_ne!(h1.srv6_routes[0].remote_sid, derived.to_string());

    let src = srv6_src(&topo, topo.topo.host("h2").unwrap()).unwrap()
        .to_string();
    assert!(
        h1.srv6
            .as_ref()
            .expect("srv6 endpoint")
            .peers
            .contains(&src),
        "learned peer {src} must be a trusted decap source: {:?}",
        h1.srv6.as_ref().map(|s| &s.peers)
    );

    let div = srv6_divergences(&topo, &learned_routes(&evpn));
    assert_eq!(div.len(), 1, "{div:?}");
    assert_eq!(div[0].behavior, "end.dt2u");
    assert_eq!(div[0].vni, 5000);
    assert_eq!(div[0].learned_sid, allocated);
    assert_eq!(div[0].derived_sid, derived);
}

#[test]
fn an_external_peer_is_trusted_for_decap_from_its_learned_sid() {
    let toml = r#"
        [[host]]
        id = "h1"
        vtep = "10.10.0.1"
        underlay_iface = "eth0"
        underlay_mac = "02:00:00:00:00:11"
        encap = "srv6"
        srv6_locator = "fc00:0:1::/64"

        [[network]]
        vni = 5000
        name = "blue"
        subnet = "192.168.100.0/24"
    "#;
    let topo = model(toml);

    let ext_loc = Locator { addr: v6("fc00:99::"), len: 64 };
    let ext_dt2u =
        srv6_service_sid(ext_loc, DISC_UNICAST, 5000).unwrap();
    let ext_dt2m =
        srv6_service_sid(ext_loc, DISC_MULTICAST, 5000).unwrap();
    let ext_src = srv6_service_sid(ext_loc, 0, 0).unwrap();

    let mut evpn = EvpnLearned::new();
    evpn.apply(&EvpnMonitorEvent::MacUpdate {
        vni: 5000,
        mac: [0x02, 0x00, 0x5e, 0x00, 0x00, 0x09],
        ip: None,
        vtep: ip("10.10.0.9"),
        srv6_sid: Some(ext_dt2u),
    });
    evpn.apply(&EvpnMonitorEvent::FloodUpdate {
        vni: 5000,
        vtep: ip("10.10.0.9"),
        srv6_sid: Some(ext_dt2m),
    });

    let cfgs = derive_configs(&topo, Some(&learned_routes(&evpn)));
    let h1 = config(&cfgs, "h1");

    assert!(
        h1.srv6_routes
            .iter()
            .all(|r| r.remote_sid != ext_dt2u.to_string()),
        "no forward route to an external peer: {:?}",
        h1.srv6_routes
    );
    assert!(
        h1.srv6_floods
            .iter()
            .all(|f| f.remote_sid != ext_dt2m.to_string()),
        "no flood target toward an external peer: {:?}",
        h1.srv6_floods
    );

    let peers = &h1.srv6.as_ref().expect("srv6 endpoint").peers;
    assert!(
        peers.contains(&ext_src.to_string()),
        "external peer source {ext_src:?} must be trusted for decap: {peers:?}"
    );

    assert!(
        srv6_divergences(&topo, &learned_routes(&evpn)).is_empty(),
        "an external (non-topology) peer yields no divergence"
    );
}

#[test]
fn a_vxlan_only_peer_is_held_on_an_srv6_host_not_given_a_derived_sid() {
    let toml = r#"
        [[host]]
        id = "h1"
        vtep = "10.10.0.1"
        underlay_iface = "eth0"
        underlay_mac = "02:00:00:00:00:11"
        encap = "srv6"
        srv6_locator = "fc00:0:1::/64"

        [[host]]
        id = "h2"
        vtep = "10.10.0.2"
        underlay_iface = "eth0"
        underlay_mac = "02:00:00:00:00:22"

        [[network]]
        vni = 5000
        name = "blue"
        subnet = "192.168.100.0/24"
    "#;
    let topo = model(toml);

    let mut evpn = EvpnLearned::new();
    evpn.apply(&EvpnMonitorEvent::MacUpdate {
        vni: 5000,
        mac: [0x02, 0x00, 0x5e, 0x00, 0x00, 0x02],
        ip: None,
        vtep: ip("10.10.0.2"),
        srv6_sid: None,
    });

    let cfgs = derive_configs(&topo, Some(&learned_routes(&evpn)));
    let h1 = config(&cfgs, "h1");

    assert!(h1.srv6_routes.is_empty(), "{:?}", h1.srv6_routes);
    assert!(h1.mac_routes.is_empty(), "{:?}", h1.mac_routes);
    assert!(srv6_divergences(&topo, &learned_routes(&evpn)).is_empty());
}

#[test]
fn nothing_is_programmed_of_a_held_mac_address() {
    let toml = r#"
        [[host]]
        id = "h1"
        vtep = "10.10.0.1"
        underlay_iface = "eth0"
        underlay_mac = "02:00:00:00:00:11"
        encap = "srv6"
        srv6_locator = "fc00:0:1::/64"

        [[host]]
        id = "h2"
        vtep = "10.10.0.2"
        underlay_iface = "eth0"
        underlay_mac = "02:00:00:00:00:22"

        [[host]]
        id = "h3"
        vtep = "10.10.0.3"
        underlay_iface = "eth0"
        underlay_mac = "02:00:00:00:00:33"

        [[network]]
        vni = 5000
        name = "blue"
        subnet = "192.168.100.0/24"
    "#;
    let topo = model(toml);
    let mut evpn = EvpnLearned::new();
    evpn.apply(&EvpnMonitorEvent::MacUpdate {
        vni: 5000,
        mac: [0x02, 0x00, 0x5e, 0x00, 0x00, 0x02],
        ip: Some(ip("192.168.100.2")),
        vtep: ip("10.10.0.2"),
        srv6_sid: None,
    });
    evpn.apply(&EvpnMonitorEvent::MacUpdate {
        vni: 5000,
        mac: [0x02, 0x00, 0x5e, 0x00, 0x00, 0x06],
        ip: Some(ip("2001:db8::6")),
        vtep: ip("10.10.0.2"),
        srv6_sid: None,
    });
    let cfgs = derive_configs(&topo, Some(&learned_routes(&evpn)));

    let h1 = config(&cfgs, "h1");
    assert!(h1.srv6_routes.is_empty() && h1.mac_routes.is_empty());
    assert!(h1.neighbors.is_empty() && h1.nd_neighbors.is_empty());

    let h3 = config(&cfgs, "h3");
    assert_eq!(h3.mac_routes.len(), 2);
    assert_eq!(h3.neighbors.len(), 1);
    assert_eq!(h3.nd_neighbors.len(), 1);
}

#[test]
fn srv6_divergences_reports_only_genuine_mismatches() {
    let toml = r#"
        [[host]]
        id = "h1"
        vtep = "10.10.0.1"
        underlay_iface = "eth0"
        underlay_mac = "02:00:00:00:00:11"
        encap = "srv6"
        srv6_locator = "fc00:0:1::/64"

        [[host]]
        id = "h2"
        vtep = "10.10.0.2"
        underlay_iface = "eth0"
        underlay_mac = "02:00:00:00:00:22"
        encap = "srv6"
        srv6_locator = "fc00:0:2::/64"

        [[network]]
        vni = 5000
        name = "blue"
        subnet = "192.168.100.0/24"
    "#;
    let topo = model(toml);
    let h2 = topo.topo.host("h2").unwrap();

    let matching = derived_unicast_sid(&topo, h2, 5000).unwrap();
    let mut evpn = EvpnLearned::new();
    evpn.apply(&EvpnMonitorEvent::MacUpdate {
        vni: 5000,
        mac: [0x02, 0x00, 0x5e, 0x00, 0x00, 0x03],
        ip: None,
        vtep: ip("10.10.0.2"),
        srv6_sid: Some(matching),
    });
    assert!(
        srv6_divergences(&topo, &learned_routes(&evpn)).is_empty(),
        "a SID equal to the derived one is not a divergence"
    );

    let foreign_flood: Ipv6Addr = v6("fc00:aaaa:bbbb:1:5678::");
    evpn.apply(&EvpnMonitorEvent::FloodUpdate {
        vni: 5000,
        vtep: ip("10.10.0.2"),
        srv6_sid: Some(foreign_flood),
    });
    let div = srv6_divergences(&topo, &learned_routes(&evpn));
    assert_eq!(div.len(), 1, "{div:?}");
    assert_eq!(div[0].behavior, "end.dt2m");
    assert_eq!(div[0].learned_sid, foreign_flood);
    assert_eq!(div[0].derived_sid, derived_multicast_sid(&topo, h2, 5000).unwrap());
}

#[test]
fn parses_ip_vrfs_and_round_trips_them() {
    let toml = r#"
        [[host]]
        id = "h1"
        vtep = "10.10.0.1"
        underlay_iface = "eth0"
        underlay_mac = "02:00:00:00:00:11"

        [[network]]
        vni = 5000
        name = "blue"
        subnet = "192.168.100.0/24"

        [[network]]
        vni = 5001
        name = "green"
        subnet = "192.168.101.0/24"

        [[ip_vrf]]
        l3_vni = 50100
        name = "tenant-a"
        gateway_mac = "02:00:5e:00:00:aa"
        networks = [5000, 5001]
    "#;
    let topo = model(toml);
    let vrf = &topo.ip_vrfs.items()[0].value;
    assert_eq!(vrf.l3_vni, 50100);
    assert_eq!(vrf.gateway_mac, [0x02, 0x00, 0x5e, 0x00, 0x00, 0xaa]);
    assert_eq!(vrf.networks, vec![5000, 5001]);
    assert_eq!(vrf_of_network(&topo, 5001).unwrap().l3_vni, 50100);
    assert!(vrf_of_network(&topo, 9999).is_none());

    let reloaded = build(&to_file(&topo)).unwrap();
    assert_eq!(&reloaded.ip_vrfs.items()[0].value, vrf);
}

#[test]
fn parses_load_balancers_and_round_trips_them() {
    let toml = r#"
        [[host]]
        id = "h1"
        vtep = "10.10.0.1"
        underlay_iface = "eth0"
        underlay_mac = "02:00:00:00:00:11"

        [[network]]
        vni = 5000
        name = "blue"
        subnet = "192.168.100.0/24"

        [[port]]
        network = 5000
        host = "h1"
        tap = "tap0"
        ip = "192.168.100.10"

        [[load_balancer]]
        id = "web"
        vni = 5000
        vip = "192.168.100.200"
        port = 80
        proto = "tcp"
        [[load_balancer.member]]
        host = "h1"
        tap = "tap0"
        port = 8080
    "#;
    let topo = model(toml);
    let lb = &topo.load_balancers.items()[0].value;
    assert_eq!(lb.id, "web");
    assert_eq!(lb.vip.to_string(), "192.168.100.200");
    assert_eq!(lb.members.len(), 1);
    assert_eq!(lb.members[0].port, 8080);

    let cfg = derive_host(&topo, "h1").unwrap();
    assert_eq!(cfg.services.len(), 1);
    assert_eq!(cfg.services[0].backends[0].ip, "192.168.100.10");

    let reloaded = build(&to_file(&topo)).unwrap();
    assert_eq!(&reloaded.load_balancers.items()[0].value, lb);
}

#[test]
fn rejects_load_balancer_member_naming_no_port() {
    let toml = r#"
        [[host]]
        id = "h1"
        vtep = "10.10.0.1"
        underlay_iface = "eth0"
        underlay_mac = "02:00:00:00:00:11"

        [[network]]
        vni = 5000
        name = "blue"
        subnet = "192.168.100.0/24"

        [[load_balancer]]
        id = "web"
        vni = 5000
        vip = "192.168.100.200"
        port = 80
        [[load_balancer.member]]
        host = "h1"
        tap = "ghost"
    "#;
    let err = match build(&parsed(toml)) {
        Ok(_) => panic!("the file was accepted"),
        Err(e) => e.message,
    };
    assert!(err.contains("load_balancer web"), "{err}");
    assert!(err.contains("ghost"), "{err}");
}

#[test]
fn rejects_ip_vrf_naming_an_undeclared_network() {
    let toml = r#"
        [[host]]
        id = "h1"
        vtep = "10.10.0.1"
        underlay_iface = "eth0"
        underlay_mac = "02:00:00:00:00:11"

        [[network]]
        vni = 5000
        name = "blue"
        subnet = "192.168.100.0/24"

        [[ip_vrf]]
        l3_vni = 50100
        name = "tenant-a"
        gateway_mac = "02:00:5e:00:00:aa"
        networks = [5000, 5002]
    "#;
    let err = match build(&parsed(toml)) {
        Ok(_) => panic!("the file was accepted"),
        Err(e) => e.message,
    };
    assert!(err.contains("ip_vrf tenant-a"), "{err}");
    assert!(err.contains("5002"), "{err}");
}

#[test]
fn parses_subnets_and_security_groups_and_binds_ports_by_name() {
    let toml = r#"
        [[host]]
        id = "h1"
        vtep = "10.10.0.1"
        underlay_iface = "eth0"
        underlay_mac = "02:00:00:00:00:11"

        [[network]]
        vni = 5000
        name = "blue"
        subnet = "192.168.100.0/24"

        [[subnet]]
        id = "s4"
        vni = 5000
        cidr = "192.168.100.0/24"
        gateway = "192.168.100.1"

        [[subnet]]
        id = "s6"
        vni = 5000
        cidr = "2001:db8::/64"
        pool_start = "2001:db8::100"
        pool_end = "2001:db8::200"

        [[security_group]]
        name = "web"
        default_action = "drop"
        stateful = true
        [[security_group.rule]]
        proto = "tcp"
        port = 80
        action = "pass"

        [[port]]
        network = 5000
        host = "h1"
        tap = "tapA"
        security_group = "web"
    "#;
    let topo = model(toml);

    assert_eq!(topo.subnets.items().len(), 2);
    assert!(matches!(subnet(&topo, "s6").cidr, SubnetCidr::V6(_)));
    assert_eq!(topo.topo.security_groups().len(), 1);
    let pid = security_group_policy_id("web");
    assert_eq!(topo.topo.ports()[0].policy, Some(pid));
    let cfg = derive_configs(&topo, None);
    assert!(config(&cfg, "h1").policies.iter().any(|p| p.id == pid));
}

#[test]
fn subnets_and_group_bindings_survive_a_file_roundtrip() {
    let toml = r#"
        [[host]]
        id = "h1"
        vtep = "10.10.0.1"
        underlay_iface = "eth0"
        underlay_mac = "02:00:00:00:00:11"
        [[network]]
        vni = 5000
        name = "blue"
        subnet = "192.168.100.0/24"
        [[subnet]]
        id = "s4"
        vni = 5000
        cidr = "192.168.100.0/24"
        gateway = "192.168.100.1"
        [[security_group]]
        name = "web"
        default_action = "drop"
        [[port]]
        network = 5000
        host = "h1"
        tap = "tapA"
        security_group = "web"
    "#;
    let original = model(toml);

    let serialised = toml::to_string_pretty(&written(&to_file(&original))).unwrap();
    let reloaded = model(&serialised);

    assert_eq!(reloaded.subnets.items().len(), 1);
    assert_eq!(reloaded.topo.security_groups().len(), 1);
    let pid = security_group_policy_id("web");
    assert_eq!(reloaded.topo.ports()[0].policy, Some(pid));
    assert!(serialised.contains("security_group = \"web\""));
    assert_eq!(
        derive_configs(&original, None),
        derive_configs(&reloaded, None)
    );
}

#[test]
fn rejects_port_on_unknown_network() {
    let toml = r#"
        [[host]]
        id = "h1"
        vtep = "10.10.0.1"
        underlay_iface = "eth0"
        underlay_mac = "02:00:00:00:00:11"
        [[port]]
        network = 999
        host = "h1"
        tap = "tapA"
    "#;
    let tf = parsed(toml);
    assert!(build(&tf).is_err());
}


#[test]
fn a_live_fabric_keeps_its_subnets_and_locators_in_step() {
    let file = TopologyFile {
        hosts: vec![HostFile {
            id: "s1".into(),
            vtep: "10.10.0.1".into(),
            underlay_iface: "eth0".into(),
            underlay_mac: "02:00:00:00:00:11".into(),
            encap: EncapName::Srv6,
            udp_port: None,
            underlay_mtu: None,
            srv6_locator: Some("fcbb:bb00:1::/48".into()),
        }],
        networks: vec![NetworkFile {
            vni: 5000,
            name: "blue".into(),
            subnet: "192.168.100.0/24".into(),
            default_action: ActionName::Pass,
            drop_icmp: false,
        }],
        subnets: vec![SubnetFile {
            id: "s4".into(),
            vni: 5000,
            cidr: "192.168.100.0/24".into(),
            gateway: Some("192.168.100.1".into()),
            pool_start: None,
            pool_end: None,
            enable_dhcp: false,
        }],
        security_groups: vec![],
        ip_vrfs: vec![],
        load_balancers: vec![],
        ports: vec![],
    };
    let mut live = LiveFabric::load(&file).unwrap();
    let given = live.apply(&TopoRequest::AllocateAddress { subnet_id: "s4".into(), ip: None });
    assert_eq!(given.addr.as_deref(), Some("192.168.100.2"));
    // Which addresses are given out is not written to the file.
    assert_eq!(live.save(), file);

    let add = |id: &str| {
        TopoRequest::AddSubnet(SubnetSpec {
            id: id.into(),
            vni: 5000,
            cidr: "2001:db8::/64".into(),
            gateway: None,
            pool_start: None,
            pool_end: None,
            enable_dhcp: true,
        })
    };
    assert!(live.apply(&add("s6")).ok);
    assert!(!live.apply(&add("s6")).ok);
    assert_eq!(live.save().subnets.len(), 2);
    assert_eq!(live.addresses().subnets().len(), 2);
    assert!(!live.apply(&TopoRequest::RemoveSubnet { id: "s4".into() }).ok);
    assert!(live.apply(&TopoRequest::RemoveSubnet { id: "s6".into() }).ok);
    assert_eq!(live.save(), file);

    // A request carries no locator, so it cannot register a host that uses SRv6.
    let srv6 = live.apply(&TopoRequest::AddHost(HostSpec {
        id: "s2".into(),
        vtep: "10.10.0.2".into(),
        underlay_iface: "eth0".into(),
        underlay_mac: "02:00:00:00:00:12".into(),
        encap: EncapName::Srv6,
        udp_port: None,
        underlay_mtu: None,
    }));
    assert!(!srv6.ok);
    assert_eq!(
        srv6.error.as_deref(),
        Some("host \"s2\": srv6_locator and srv6 encap go together")
    );
    assert_eq!(live.save(), file);

    // A host that is registered anew through a request has no locator.
    let again = TopoRequest::AddHost(HostSpec {
        id: "s1".into(),
        vtep: "10.10.0.9".into(),
        underlay_iface: "eth0".into(),
        underlay_mac: "02:00:00:00:00:11".into(),
        encap: EncapName::Vxlan,
        udp_port: None,
        underlay_mtu: None,
    });
    assert!(live.apply(&again).ok);
    assert_eq!(live.save().hosts[0].srv6_locator, None);
    assert!(live.apply(&TopoRequest::RemoveHost { id: "s1".into() }).ok);
    assert!(live.save().hosts.is_empty());
    assert_eq!(LiveFabric::new().save().subnets.len(), 0);
}

fn refusal(toml: &str) -> String {
    match build(&parsed(toml)) {
        Ok(_) => panic!("the file should be refused"),
        Err(e) => e.message,
    }
}

fn vrf(l3_vni: &str, gateway_mac: &str, networks: &str) -> String {
    format!(
        r#"
        [[network]]
        vni = 100
        name = "blue"
        subnet = "10.0.0.0/24"
        [[ip_vrf]]
        l3_vni = {l3_vni}
        name = "t1"
        gateway_mac = "{gateway_mac}"
        networks = [{networks}]
        "#
    )
}

#[test]
fn a_routing_context_is_validated() {
    let good = "02:00:5e:00:00:aa";
    for vni in ["1", "50100", "16777215"] {
        assert_eq!(model(&vrf(vni, good, "100")).ip_vrfs.items().len(), 1);
    }
    for vni in ["0", "16777216"] {
        assert_eq!(
            refusal(&vrf(vni, good, "100")),
            format!("ip_vrf t1: l3_vni {vni} is not between 1 and 16777215")
        );
    }
    for mac in ["00:00:00:00:00:00", "01:00:5e:00:00:aa", "ff:ff:ff:ff:ff:ff"] {
        assert_eq!(
            refusal(&vrf("50100", mac, "100")),
            format!("ip_vrf t1: gateway_mac {mac:?} is not the address of one station")
        );
    }
    assert_eq!(refusal(&vrf("50100", good, "100, 7")), "ip_vrf t1: unknown network vni 7");
    assert_eq!(
        refusal(&vrf("50100", "02:00", "100")),
        "ip_vrf t1: invalid gateway_mac \"02:00\": expected six pairs of hexadecimal digits"
    );
}

#[test]
fn a_refusal_tells_the_cause() {
    assert_eq!(
        refusal("[[host]]\nid = \"h1\"\nvtep = \"10.0.0.1\"\nunderlay_iface = \"eth0\"\nunderlay_mac = \"zz\"\n"),
        "host \"h1\": invalid underlay_mac \"zz\": expected six pairs of hexadecimal digits"
    );
    assert_eq!(
        refusal("[[network]]\nvni = 7\nname = \"n\"\nsubnet = \"10.0.0.0/33\"\n"),
        "network 7: invalid subnet \"10.0.0.0/33\": \
         expected an IPv4 address, a slash and a length up to 32"
    );
    assert_eq!(
        refusal("[[subnet]]\nid = \"s\"\nvni = 7\ncidr = \"2001:db8::\"\n"),
        "subnet \"s\": invalid cidr \"2001:db8::\": \
         expected an IPv6 address, a slash and a length up to 128"
    );
}

#[test]
fn runtime_changes_survive_a_restart() {
    let toml = r#"
        [[host]]
        id = "h1"
        vtep = "10.10.0.1"
        underlay_iface = "eth0"
        underlay_mac = "02:00:00:00:00:11"
        [[network]]
        vni = 100
        name = "blue"
        subnet = "10.0.0.0/24"
        [[port]]
        network = 100
        host = "h1"
        tap = "tap0"
        [[load_balancer]]
        id = "lb"
        vni = 100
        vip = "10.0.0.200"
        port = 80
        [[load_balancer.member]]
        host = "h1"
        tap = "tap0"
    "#;
    let mut live = LiveFabric::load(&parsed(toml)).ok().unwrap();
    let made = live.apply(&TopoRequest::CreatePort {
        vni: 100,
        host: "h1".into(),
        tap: "tap1".into(),
        ip: None,
        policy: Some(9),
    });
    assert!(made.ok);
    let saved = live.save();
    assert_eq!(saved.ports.len(), 2);
    let again = LiveFabric::load(&saved).ok().unwrap();
    assert_eq!(again.save(), saved);
    assert_eq!(again.fabric().topo.ports(), live.fabric().topo.ports());

    // The member of the load balancer goes with its port.
    let gone = live.fabric().topo.ports()[0].id.clone();
    assert!(live.apply(&TopoRequest::RemovePort { id: gone }).ok);
    let saved = live.save();
    assert_eq!(saved.load_balancers[0].members.len(), 0);
    let again = LiveFabric::load(&saved).ok().unwrap();
    assert_eq!(again.fabric().topo.ports(), live.fabric().topo.ports());
    assert_eq!(again.save(), saved);
}
