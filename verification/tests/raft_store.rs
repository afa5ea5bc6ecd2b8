//! The replicated state: requests, the log and the state machine.

use velstra::addr::IpAddr;
use velstra::config::{ActionName, EncapName, PortRule, ProtoName};
use velstra::ipam::{AddressBook, Holder};
use velstra::orchestrator::{security_group_policy_id, Topology};
use velstra::store::{
    Entry, HostSpec, LogId, LogStore, Membership, NetworkSpec, Payload, SecurityGroupSpec,
    StateMachineStore, StoredSnapshot, SubnetSpec, TopoRequest, TopoResponse, Vote,
};

/// A fabric with its address book.
struct State {
    topo: Topology,
    book: AddressBook,
}

impl State {
    fn new() -> State {
        State { topo: Topology::new(), book: AddressBook::new() }
    }
}

fn apply(t: &mut State, req: &TopoRequest) -> TopoResponse {
    velstra::store::apply(&mut t.topo, &mut t.book, req)
}

fn host_spec(id: &str, vtep: &str) -> HostSpec {
    HostSpec {
        id: id.into(),
        vtep: vtep.into(),
        underlay_iface: "eth0".into(),
        underlay_mac: "02:00:00:00:00:11".into(),
        encap: EncapName::Vxlan,
        udp_port: None,
        underlay_mtu: None,
    }
}

#[test]
fn apply_migrate_port_moves_host_keeping_identity() {
    let mut t = State::new();
    assert!(apply(&mut t, &TopoRequest::AddHost(host_spec("h1", "10.0.0.1"))).ok);
    assert!(apply(&mut t, &TopoRequest::AddHost(host_spec("h2", "10.0.0.2"))).ok);
    assert!(
        apply(
            &mut t,
            &TopoRequest::AddNetwork(NetworkSpec {
                vni: 5000,
                name: "blue".into(),
                subnet: "192.168.100.0/24".into(),
                default_action: ActionName::Pass,
                drop_icmp: false,
            })
        )
        .ok
    );
    let port = apply(
        &mut t,
        &TopoRequest::CreatePort {
            vni: 5000,
            host: "h1".into(),
            tap: "tapA".into(),
            ip: None,
            policy: None,
        },
    )
    .port
    .expect("create returns a port");
    assert_eq!(port.host, "h1");

    let migrated = apply(
        &mut t,
        &TopoRequest::MigratePort {
            id: port.id.clone(),
            host: "h2".into(),
            tap: "tapA2".into(),
        },
    );
    assert!(migrated.ok, "migrate failed: {:?}", migrated.error);
    let mp = migrated.port.expect("migrate returns the port");
    assert_eq!(mp.id, port.id);
    assert_eq!(mp.ip, port.ip);
    assert_eq!(mp.mac, port.mac);
    assert_eq!(mp.host, "h2");
    assert_eq!(mp.tap, "tapA2");

    assert!(
        !apply(
            &mut t,
            &TopoRequest::MigratePort {
                id: port.id,
                host: "ghost".into(),
                tap: "x".into(),
            },
        )
        .ok
    );
}

#[test]
fn apply_security_group_add_bind_and_remove_roundtrip() {
    let mut t = State::new();
    assert!(apply(&mut t, &TopoRequest::AddHost(host_spec("h1", "10.0.0.1"))).ok);
    assert!(
        apply(
            &mut t,
            &TopoRequest::AddNetwork(NetworkSpec {
                vni: 5000,
                name: "blue".into(),
                subnet: "192.168.100.0/24".into(),
                default_action: ActionName::Pass,
                drop_icmp: false,
            })
        )
        .ok
    );
    let port = apply(
        &mut t,
        &TopoRequest::CreatePort {
            vni: 5000,
            host: "h1".into(),
            tap: "tapA".into(),
            ip: None,
            policy: None,
        },
    )
    .port
    .expect("create returns a port");

    assert!(
        apply(
            &mut t,
            &TopoRequest::AddSecurityGroup(SecurityGroupSpec {
                name: "web".into(),
                default_action: ActionName::Drop,
                drop_icmp: false,
                stateful: true,
                blocklist: vec![],
                rules: vec![PortRule {
                    proto: ProtoName::Tcp,
                    port: 80,
                    action: ActionName::Pass,
                    log: false,
                    src: None,
                }],
            })
        )
        .ok
    );
    assert!(
        !apply(
            &mut t,
            &TopoRequest::AddSecurityGroup(SecurityGroupSpec {
                name: "web".into(),
                default_action: ActionName::Drop,
                drop_icmp: false,
                stateful: false,
                blocklist: vec![],
                rules: vec![],
            })
        )
        .ok
    );

    let bound = apply(
        &mut t,
        &TopoRequest::SetPortSecurityGroup {
            port_id: port.id.clone(),
            group: Some("web".into()),
        },
    );
    assert!(bound.ok, "bind failed: {:?}", bound.error);
    let pid = security_group_policy_id("web");
    let rt = t.topo.derive("h1").unwrap();
    assert!(rt.policies.iter().any(|p| p.id == pid));
    assert_eq!(
        rt.interfaces
            .iter()
            .find(|i| i.name == "tapA")
            .unwrap()
            .policy,
        pid
    );

    assert!(
        !apply(
            &mut t,
            &TopoRequest::RemoveSecurityGroup { name: "web".into() }
        )
        .ok
    );
    assert!(
        apply(
            &mut t,
            &TopoRequest::SetPortSecurityGroup {
                port_id: port.id,
                group: None,
            },
        )
        .ok
    );
    assert!(
        apply(
            &mut t,
            &TopoRequest::RemoveSecurityGroup { name: "web".into() }
        )
        .ok
    );
}

fn request(id: &str) -> TopoRequest {
    TopoRequest::AddHost(host_spec(id, "10.0.0.1"))
}

fn log_id(index: u64) -> LogId {
    LogId { term: 3, node: 1, index }
}

fn entry(index: u64) -> Entry {
    Entry { log_id: log_id(index), payload: Payload::Normal(request(&format!("h{index}"))) }
}

#[test]
fn the_log_is_appended_cut_and_purged() {
    let mut log = LogStore::new(None);
    assert_eq!(log.get_log_state(), (None, None));
    log.append(vec![entry(1), entry(2), entry(3), entry(4)]);
    assert_eq!(log.get_log_state(), (None, Some(log_id(4))));
    assert_eq!(log.try_get_log_entries(2, 4), vec![entry(2), entry(3)]);
    log.truncate(4);
    assert_eq!(log.get_log_state(), (None, Some(log_id(3))));
    log.purge(log_id(2));
    assert_eq!(log.get_log_state(), (Some(log_id(2)), Some(log_id(3))));
    assert_eq!(log.try_get_log_entries(0, 9), vec![entry(3)]);
    log.purge(log_id(3));
    assert_eq!(log.get_log_state(), (Some(log_id(3)), Some(log_id(3))));
}

#[test]
fn votes_and_markers_are_kept() {
    let mut log = LogStore::new(Some(log_id(7)));
    assert_eq!(log.get_log_state(), (Some(log_id(7)), Some(log_id(7))));
    assert_eq!(log.read_vote(), None);
    let vote = Vote { term: 4, node: 2, committed: true };
    log.save_vote(vote);
    assert_eq!(log.read_vote(), Some(vote));
    log.save_committed(Some(log_id(8)));
    assert_eq!(log.read_committed(), Some(log_id(8)));
    let again = LogStore::resume(vec![entry(8)], Some(log_id(7)), Some(log_id(8)), Some(vote));
    assert_eq!(again.get_log_state(), (Some(log_id(7)), Some(log_id(8))));
    assert_eq!(again.read_vote(), Some(vote));
}

#[test]
fn replicas_that_apply_the_same_entries_agree() {
    let entries = || {
        vec![
            Entry { log_id: log_id(1), payload: Payload::Blank },
            entry(2),
            Entry {
                log_id: log_id(3),
                payload: Payload::Membership(Membership {
                    voters: vec![vec![1, 2]],
                    nodes: vec![1, 2],
                    addrs: vec!["a:1".into(), "b:1".into()],
                }),
            },
        ]
    };
    let (mut a, mut b) = (StateMachineStore::new(), StateMachineStore::new());
    let out = a.apply(&entries());
    assert_eq!(out.len(), 3);
    assert!(out.iter().all(|r| r.ok));
    b.apply(&entries());
    assert_eq!(format!("{:?}", a.topology().hosts()), format!("{:?}", b.topology().hosts()));
    assert_eq!(a.applied_state().0, Some(log_id(3)));
    assert_eq!(a.applied_state().1.log_id, Some(log_id(3)));
    assert_eq!(a.changed(), 1);
}

#[test]
fn a_snapshot_brings_another_replica_up_to_date() {
    let mut a = StateMachineStore::new();
    assert_eq!(a.next_snapshot().snapshot_id, "--1");
    a.apply(&vec![entry(5)]);
    let meta = a.next_snapshot();
    assert_eq!(meta.snapshot_id, "T3-N1-5-2");
    let (fabric, addresses) = (a.snapshot_fabric(), a.snapshot_addresses());
    let mut b = StateMachineStore::new();
    b.install_snapshot(StoredSnapshot { meta, data: vec![1, 2, 3] }, &fabric, &addresses);
    assert_eq!(b.applied_state().0, Some(log_id(5)));
    assert_eq!(b.topology().hosts().len(), 1);
    assert_eq!(b.get_current_snapshot().as_ref().unwrap().data, vec![1, 2, 3]);
}

fn seeded() -> State {
    let mut t = State::new();
    assert!(apply(&mut t, &TopoRequest::AddHost(host_spec("h1", "10.0.0.1"))).ok);
    assert!(
        apply(
            &mut t,
            &TopoRequest::AddNetwork(NetworkSpec {
                vni: 5000,
                name: "blue".into(),
                subnet: "192.168.100.0/24".into(),
                default_action: ActionName::Pass,
                drop_icmp: false,
            })
        )
        .ok
    );
    t
}

fn subnet_spec(id: &str, cidr: &str, gateway: Option<&str>) -> SubnetSpec {
    SubnetSpec {
        id: id.into(),
        vni: 5000,
        cidr: cidr.into(),
        gateway: gateway.map(|g| g.into()),
        pool_start: None,
        pool_end: None,
        enable_dhcp: false,
    }
}

#[test]
fn apply_subnet_add_bind_allocate_and_remove_roundtrip() {
    let mut t = seeded();

    // Add a v4 and a v6 subnet (dual stack), each with a gateway.
    assert!(
        apply(
            &mut t,
            &TopoRequest::AddSubnet(subnet_spec(
                "s4",
                "192.168.100.0/24",
                Some("192.168.100.1")
            ))
        )
        .ok
    );
    assert!(
        apply(
            &mut t,
            &TopoRequest::AddSubnet(subnet_spec("s6", "2001:db8::/64", Some("2001:db8::1")))
        )
        .ok
    );
    // An unknown-VNI subnet fails (validated on apply, deterministically).
    let bad = SubnetSpec {
        vni: 999,
        ..subnet_spec("bad", "10.9.0.0/24", None)
    };
    assert!(!apply(&mut t, &TopoRequest::AddSubnet(bad)).ok);
    assert_eq!(t.book.subnets().len(), 2);

    // A standalone allocation returns the address (gateway .1 reserved → .2).
    let alloc = apply(
        &mut t,
        &TopoRequest::AllocateAddress {
            subnet_id: "s4".into(),
            ip: None,
        },
    );
    assert!(alloc.ok);
    assert_eq!(alloc.addr.as_deref(), Some("192.168.100.2"));
    // Releasing it back succeeds; a double release fails.
    assert!(
        apply(
            &mut t,
            &TopoRequest::ReleaseAddress {
                subnet_id: "s4".into(),
                addr: "192.168.100.2".into()
            }
        )
        .ok
    );
    assert!(
        !apply(
            &mut t,
            &TopoRequest::ReleaseAddress {
                subnet_id: "s4".into(),
                addr: "192.168.100.2".into()
            }
        )
        .ok
    );

    // Create a port and bind it dual-stack.
    let port = apply(
        &mut t,
        &TopoRequest::CreatePort {
            vni: 5000,
            host: "h1".into(),
            tap: "tapA".into(),
            ip: None,
            policy: None,
        },
    )
    .port
    .expect("create returns a port");
    let b4 = apply(
        &mut t,
        &TopoRequest::BindPortSubnet {
            port_id: port.id.clone(),
            subnet_id: "s4".into(),
            ip: None,
        },
    );
    assert!(b4.ok);
    assert_eq!(b4.addr.as_deref(), Some("192.168.100.2")); // .1 gw reserved, .2 free again
    let b6 = apply(
        &mut t,
        &TopoRequest::BindPortSubnet {
            port_id: port.id.clone(),
            subnet_id: "s6".into(),
            ip: None,
        },
    );
    assert!(b6.ok);
    assert_eq!(b6.addr.as_deref(), Some("2001:db8::2"));

    // Unbinding the wrong address fails; the right one succeeds.
    assert!(
        !apply(
            &mut t,
            &TopoRequest::UnbindPortAddress {
                port_id: port.id.clone(),
                subnet_id: "s4".into(),
                addr: "192.168.100.9".into()
            }
        )
        .ok
    );
    assert!(
        apply(
            &mut t,
            &TopoRequest::UnbindPortAddress {
                port_id: port.id.clone(),
                subnet_id: "s4".into(),
                addr: "192.168.100.2".into()
            }
        )
        .ok
    );

    // Removing a subnet with a live binding fails; after unbinding s6, it removes.
    assert!(!apply(&mut t, &TopoRequest::RemoveSubnet { id: "s6".into() }).ok);
    assert!(
        apply(
            &mut t,
            &TopoRequest::UnbindPortAddress {
                port_id: port.id,
                subnet_id: "s6".into(),
                addr: "2001:db8::2".into()
            }
        )
        .ok
    );
    assert!(apply(&mut t, &TopoRequest::RemoveSubnet { id: "s6".into() }).ok);

    // The whole thing survives a snapshot round-trip (cluster durability).
    let restored = AddressBook::from_snapshot(&t.book.to_snapshot());
    assert_eq!(restored.subnets().len(), t.book.subnets().len());
}

#[test]
fn apply_floating_ip_allocate_associate_and_release_roundtrip() {
    let mut t = seeded();
    // A tenant subnet (for the port's fixed address) and an external/floating one.
    assert!(
        apply(
            &mut t,
            &TopoRequest::AddSubnet(subnet_spec("tenant", "192.168.100.0/24", None))
        )
        .ok
    );
    assert!(
        apply(
            &mut t,
            &TopoRequest::AddSubnet(SubnetSpec {
                vni: 5000,
                ..subnet_spec("ext", "203.0.113.0/29", None)
            })
        )
        .ok
    );

    let port = apply(
        &mut t,
        &TopoRequest::CreatePort {
            vni: 5000,
            host: "h1".into(),
            tap: "tapA".into(),
            ip: None,
            policy: None,
        },
    )
    .port
    .expect("create returns a port");
    let fixed = apply(
        &mut t,
        &TopoRequest::BindPortSubnet {
            port_id: port.id.clone(),
            subnet_id: "tenant".into(),
            ip: None,
        },
    )
    .addr
    .expect("bind returns an address"); // .1

    // Allocate a floating IP (returns the fip record, unassociated).
    let alloc = apply(
        &mut t,
        &TopoRequest::AllocateFloatingIp {
            subnet_id: "ext".into(),
            ip: None,
        },
    );
    assert!(alloc.ok);
    let fip = alloc.floating.expect("allocate returns a floating ip");
    assert_eq!(fip.addr, "203.0.113.1");
    assert!(fip.assoc_port.is_none());

    // Associating to a fixed address the port does not hold fails.
    assert!(
        !apply(
            &mut t,
            &TopoRequest::AssociateFloatingIp {
                id: fip.id.clone(),
                port_id: port.id.clone(),
                fixed_addr: "192.168.100.99".into()
            }
        )
        .ok
    );
    // Associate to the port's real fixed address.
    let assoc = apply(
        &mut t,
        &TopoRequest::AssociateFloatingIp {
            id: fip.id.clone(),
            port_id: port.id.clone(),
            fixed_addr: fixed.clone(),
        },
    );
    assert!(assoc.ok, "associate failed: {:?}", assoc.error);
    let af = assoc.floating.unwrap();
    assert_eq!(af.assoc_port.as_deref(), Some(port.id.as_str()));
    assert_eq!(af.assoc_fixed.as_deref(), Some(fixed.as_str()));

    // Release is blocked while associated; disassociate then release works.
    assert!(
        !apply(
            &mut t,
            &TopoRequest::ReleaseFloatingIp { id: fip.id.clone() }
        )
        .ok
    );
    let dis = apply(
        &mut t,
        &TopoRequest::DisassociateFloatingIp { id: fip.id.clone() },
    );
    assert!(dis.ok);
    assert!(dis.floating.unwrap().assoc_port.is_none());
    assert!(
        apply(
            &mut t,
            &TopoRequest::ReleaseFloatingIp { id: fip.id.clone() }
        )
        .ok
    );
    // Releasing again reports failure (no such floating ip).
    assert!(!apply(&mut t, &TopoRequest::ReleaseFloatingIp { id: fip.id }).ok);

    // Re-allocate + associate, then confirm it survives a snapshot round-trip.
    let f2 = apply(
        &mut t,
        &TopoRequest::AllocateFloatingIp {
            subnet_id: "ext".into(),
            ip: None,
        },
    )
    .floating
    .unwrap();
    assert!(
        apply(
            &mut t,
            &TopoRequest::AssociateFloatingIp {
                id: f2.id.clone(),
                port_id: port.id,
                fixed_addr: fixed
            }
        )
        .ok
    );
    let restored = AddressBook::from_snapshot(&t.book.to_snapshot());
    let rf = restored
        .floating_ip(&f2.id)
        .expect("floating ip survives failover");
    assert!(rf.association.is_some());
}

#[test]
fn addresses_are_given_out_from_the_pool_and_once() {
    let mut t = seeded();
    let mut spec = subnet_spec("s", "192.168.100.0/29", Some("192.168.100.3"));
    spec.pool_start = Some("192.168.100.2".into());
    spec.pool_end = Some("192.168.100.4".into());
    assert!(apply(&mut t, &TopoRequest::AddSubnet(spec.clone())).ok);
    let again = apply(&mut t, &TopoRequest::AddSubnet(spec));
    assert_eq!(again.error.as_deref(), Some("subnet \"s\" already exists"));
    let allocate = |t: &mut State, ip: Option<&str>| {
        apply(
            t,
            &TopoRequest::AllocateAddress {
                subnet_id: "s".into(),
                ip: ip.map(|a| a.to_string()),
            },
        )
    };
    // The gateway in the middle of the pool is skipped, and the pool runs out.
    assert_eq!(allocate(&mut t, None).addr.as_deref(), Some("192.168.100.2"));
    assert_eq!(allocate(&mut t, None).addr.as_deref(), Some("192.168.100.4"));
    assert_eq!(
        allocate(&mut t, None).error.as_deref(),
        Some("subnet \"s\" has no free address")
    );
    // An address that is asked for need not be in the pool, but must be one of the subnet.
    assert_eq!(
        allocate(&mut t, Some("192.168.100.6")).addr.as_deref(),
        Some("192.168.100.6")
    );
    assert_eq!(
        allocate(&mut t, Some("192.168.100.6")).error.as_deref(),
        Some("address 192.168.100.6 is already allocated in subnet \"s\"")
    );
    for bad in ["192.168.100.0", "192.168.100.3", "192.168.100.7", "192.168.100.8", "::1"] {
        assert_eq!(
            allocate(&mut t, Some(bad)).error,
            Some(format!("address {bad} cannot be assigned in subnet \"s\""))
        );
    }
    assert_eq!(
        allocate(&mut t, Some("nowhere")).error.as_deref(),
        Some("invalid ip \"nowhere\"")
    );
    let removed = apply(&mut t, &TopoRequest::RemoveSubnet { id: "s".into() });
    assert_eq!(
        removed.error.as_deref(),
        Some("subnet \"s\" still has allocated addresses")
    );
    let a = IpAddr::parse("192.168.100.2").unwrap();
    assert_eq!(t.book.holder("s", a), Some(&Holder::Standalone));
    // An address without a port is not taken back from one.
    assert!(!t.book.unbind_port_address("port-1", "s", a));
    assert!(t.book.release("s", a));
    assert_eq!(allocate(&mut t, None).addr.as_deref(), Some("192.168.100.2"));
    let unknown = apply(
        &mut t,
        &TopoRequest::AllocateAddress { subnet_id: "nope".into(), ip: None },
    );
    assert_eq!(unknown.error.as_deref(), Some("unknown subnet \"nope\""));
}

#[test]
fn small_subnets_and_large_ones() {
    let mut t = seeded();
    for (id, cidr, first) in [
        ("p30", "10.0.0.0/30", Some("10.0.0.1")),
        ("p31", "10.0.0.0/31", None),
        ("p32", "10.0.0.5/32", None),
        ("p8", "10.0.0.0/8", Some("10.0.0.1")),
        ("v127", "2001:db8::/127", Some("2001:db8::1")),
        ("v128", "2001:db8::5/128", None),
        ("v0", "::/0", Some("::1")),
    ] {
        assert!(apply(&mut t, &TopoRequest::AddSubnet(subnet_spec(id, cidr, None))).ok);
        let r = apply(
            &mut t,
            &TopoRequest::AllocateAddress { subnet_id: id.into(), ip: None },
        );
        assert_eq!(r.addr.as_deref(), first, "{id}");
    }
    // A pool far from the start of the subnet.
    let mut far = subnet_spec("far", "2001:db8::/32", None);
    far.pool_start = Some("2001:db8:ffff::10".into());
    far.pool_end = Some("2001:db8:ffff::20".into());
    assert!(apply(&mut t, &TopoRequest::AddSubnet(far)).ok);
    let r = apply(
        &mut t,
        &TopoRequest::AllocateAddress { subnet_id: "far".into(), ip: None },
    );
    assert_eq!(r.addr.as_deref(), Some("2001:db8:ffff::10"));
}

#[test]
fn a_port_binds_only_addresses_of_its_network() {
    let mut t = seeded();
    assert!(apply(&mut t, &TopoRequest::AddSubnet(subnet_spec("s", "10.7.0.0/24", None))).ok);
    let bind = |t: &mut State, port_id: &str| {
        apply(
            t,
            &TopoRequest::BindPortSubnet {
                port_id: port_id.into(),
                subnet_id: "s".into(),
                ip: None,
            },
        )
    };
    assert_eq!(
        bind(&mut t, "port-9").error.as_deref(),
        Some("unknown port \"port-9\"")
    );
    assert!(
        apply(
            &mut t,
            &TopoRequest::AddNetwork(NetworkSpec {
                vni: 6000,
                name: "green".into(),
                subnet: "10.8.0.0/24".into(),
                default_action: ActionName::Pass,
                drop_icmp: false,
            })
        )
        .ok
    );
    let port = apply(
        &mut t,
        &TopoRequest::CreatePort {
            vni: 6000,
            host: "h1".into(),
            tap: "tapB".into(),
            ip: None,
            policy: None,
        },
    )
    .port
    .unwrap();
    assert_eq!(
        bind(&mut t, &port.id).error,
        Some(format!("port {:?} is not on the network of subnet \"s\"", port.id))
    );
}

#[test]
fn floating_addresses_stand_for_one_address_each() {
    let mut t = seeded();
    assert!(apply(&mut t, &TopoRequest::AddSubnet(subnet_spec("in", "10.7.0.0/24", None))).ok);
    assert!(apply(&mut t, &TopoRequest::AddSubnet(subnet_spec("ext", "203.0.113.0/29", None))).ok);
    let port = apply(
        &mut t,
        &TopoRequest::CreatePort {
            vni: 5000,
            host: "h1".into(),
            tap: "tapA".into(),
            ip: None,
            policy: None,
        },
    )
    .port
    .unwrap();
    let fixed = apply(
        &mut t,
        &TopoRequest::BindPortSubnet {
            port_id: port.id.clone(),
            subnet_id: "in".into(),
            ip: None,
        },
    )
    .addr
    .unwrap();
    let float = |t: &mut State| {
        apply(
            t,
            &TopoRequest::AllocateFloatingIp { subnet_id: "ext".into(), ip: None },
        )
        .floating
        .unwrap()
    };
    let (f, g) = (float(&mut t), float(&mut t));
    assert_eq!(f.id, "fip-ext-203.0.113.1");
    assert_eq!(g.addr, "203.0.113.2");
    let associate = |t: &mut State, id: &str| {
        apply(
            t,
            &TopoRequest::AssociateFloatingIp {
                id: id.into(),
                port_id: port.id.clone(),
                fixed_addr: fixed.clone(),
            },
        )
    };
    assert!(associate(&mut t, &f.id).ok);
    assert_eq!(
        associate(&mut t, &f.id).error.as_deref(),
        Some("floating ip \"fip-ext-203.0.113.1\" is already associated")
    );
    assert_eq!(
        associate(&mut t, &g.id).error,
        Some(format!("address {fixed} of port {:?} already has a floating ip", port.id))
    );
    assert_eq!(
        associate(&mut t, "nope").error.as_deref(),
        Some("no floating ip \"nope\"")
    );
    assert_eq!(
        apply(&mut t, &TopoRequest::ReleaseFloatingIp { id: f.id.clone() }).error.as_deref(),
        Some("floating ip \"fip-ext-203.0.113.1\" is still associated")
    );
    // A floating address is no standalone one.
    assert!(!t.book.release("ext", IpAddr::parse("203.0.113.2").unwrap()));
    assert_eq!(t.book.floating_ips().len(), 2);
    assert!(apply(&mut t, &TopoRequest::ReleaseFloatingIp { id: g.id }).ok);
    assert_eq!(float(&mut t).addr, "203.0.113.2");
}

#[test]
fn a_refused_description_tells_the_cause() {
    let mut t = State::new();
    let mut bad = host_spec("h1", "10.0.0.1");
    bad.underlay_mac = "02:00".into();
    assert_eq!(
        apply(&mut t, &TopoRequest::AddHost(bad)).error.as_deref(),
        Some("invalid mac: expected six pairs of hexadecimal digits")
    );
    assert_eq!(
        apply(
            &mut t,
            &TopoRequest::AddNetwork(NetworkSpec {
                vni: 7,
                name: "n".into(),
                subnet: "10.0.0.0".into(),
                default_action: ActionName::Pass,
                drop_icmp: false,
            })
        )
        .error
        .as_deref(),
        Some("invalid subnet: expected an IPv4 address, a slash and a length up to 32")
    );
    let mut srv6 = host_spec("h1", "10.0.0.1");
    srv6.encap = EncapName::Srv6;
    assert_eq!(
        apply(&mut t, &TopoRequest::AddHost(srv6)).error.as_deref(),
        Some("host \"h1\": srv6_locator and srv6 encap go together")
    );
    assert!(apply(&mut t, &TopoRequest::AddHost(host_spec("h1", "10.0.0.1"))).ok);
}
