//! The EVPN feed: its lines, what is learned from them, and when to derive anew.

use velstra::addr::{parse_mac, IpAddr};
use velstra::evpn::{parse_evpn_event, EvpnLearned, EvpnMonitorEvent, MonitorState};

fn mac(s: &str) -> [u8; 6] {
    parse_mac(s).unwrap()
}

fn ip(s: &str) -> IpAddr {
    IpAddr::parse(s).unwrap()
}

#[test]
fn parses_mac_update_with_ip() {
    let ev = parse_evpn_event(
        "+ evpn vni 4200000 mac aa:bb:cc:dd:ee:ff ip 192.168.5.7 vtep 10.0.0.2",
    )
    .unwrap();
    assert_eq!(
        ev,
        EvpnMonitorEvent::MacUpdate {
            vni: 4_200_000,
            mac: mac("aa:bb:cc:dd:ee:ff"),
            ip: Some(ip("192.168.5.7")),
            vtep: ip("10.0.0.2"),
            srv6_sid: None,
        }
    );
}

#[test]
fn parses_mac_update_without_ip() {
    let ev = parse_evpn_event("+ evpn vni 100 mac 02:00:00:00:00:11 vtep 10.0.0.9").unwrap();
    assert_eq!(
        ev,
        EvpnMonitorEvent::MacUpdate {
            vni: 100,
            mac: mac("02:00:00:00:00:11"),
            ip: None,
            vtep: ip("10.0.0.9"),
            srv6_sid: None,
        }
    );
}

#[test]
fn parses_v6_vtep_and_ip() {
    let ev =
        parse_evpn_event("+ evpn vni 7 mac aa:bb:cc:dd:ee:ff ip 2001:db8::1 vtep 2001:db8::2")
            .unwrap();
    assert_eq!(
        ev,
        EvpnMonitorEvent::MacUpdate {
            vni: 7,
            mac: mac("aa:bb:cc:dd:ee:ff"),
            ip: Some(ip("2001:db8::1")),
            vtep: ip("2001:db8::2"),
            srv6_sid: None,
        }
    );
}

#[test]
fn parses_mac_withdraw() {
    let ev = parse_evpn_event("- evpn vni 100 mac 02:00:00:00:00:11").unwrap();
    assert_eq!(
        ev,
        EvpnMonitorEvent::MacWithdraw {
            vni: 100,
            mac: mac("02:00:00:00:00:11"),
        }
    );
}

#[test]
fn parses_flood_add_and_remove() {
    assert_eq!(
        parse_evpn_event("+ evpn vni 100 flood 10.0.0.2").unwrap(),
        EvpnMonitorEvent::FloodUpdate {
            vni: 100,
            vtep: ip("10.0.0.2"),
            srv6_sid: None,
        }
    );
    assert_eq!(
        parse_evpn_event("- evpn vni 100 flood 10.0.0.2").unwrap(),
        EvpnMonitorEvent::FloodWithdraw {
            vni: 100,
            vtep: ip("10.0.0.2"),
        }
    );
}

#[test]
fn parses_prefix_update_with_full_tail() {
    let ev = parse_evpn_event(
        "+ evpn l3vni 50100 prefix 10.20.0.0/24 vtep 10.0.0.1 \
         router-mac 02:00:5e:00:00:aa gw 10.20.0.1 srv6 fc00:0:1:200:c3b4::",
    )
    .unwrap();
    assert_eq!(
        ev,
        EvpnMonitorEvent::PrefixUpdate {
            l3_vni: 50100,
            prefix: "10.20.0.0/24".into(),
            vtep: ip("10.0.0.1"),
            router_mac: Some([0x02, 0x00, 0x5e, 0x00, 0x00, 0xaa]),
            gw: Some(ip("10.20.0.1")),
            srv6_sid: None,
        }
    );
}

#[test]
fn parses_prefix_update_with_partial_and_reordered_tail() {
    let bare =
        parse_evpn_event("+ evpn l3vni 7 prefix 2001:db8::/64 vtep 2001:db8::9").unwrap();
    assert_eq!(
        bare,
        EvpnMonitorEvent::PrefixUpdate {
            l3_vni: 7,
            prefix: "2001:db8::/64".into(),
            vtep: ip("2001:db8::9"),
            router_mac: None,
            gw: None,
            srv6_sid: None,
        }
    );
    let a = parse_evpn_event(
        "+ evpn l3vni 7 prefix 10.0.0.0/8 vtep 10.0.0.1 router-mac aa:bb:cc:dd:ee:ff gw 10.0.0.1",
    );
    let b = parse_evpn_event(
        "+ evpn l3vni 7 prefix 10.0.0.0/8 vtep 10.0.0.1 gw 10.0.0.1 router-mac aa:bb:cc:dd:ee:ff",
    );
    assert_eq!(a, b);
    assert!(a.is_some());
}

#[test]
fn parses_prefix_withdraw() {
    assert_eq!(
        parse_evpn_event("- evpn l3vni 50100 prefix 10.20.0.0/24").unwrap(),
        EvpnMonitorEvent::PrefixWithdraw {
            l3_vni: 50100,
            prefix: "10.20.0.0/24".into(),
        }
    );
}

#[test]
fn rejects_malformed_prefix_lines() {
    for bad in [
        "+ evpn l3vni 50100 prefix 10.20.0.0/24 vtep 10.0.0.1 encap vxlan", // unknown key
        "+ evpn l3vni 50100 prefix 10.20.0.0/24 vtep 10.0.0.1 router-mac",  // key, no value
        "+ evpn l3vni 50100 prefix 10.20.0.0/24 vtep 10.0.0.1 router-mac zz:bb:cc:dd:ee:ff",
        "+ evpn l3vni 50100 prefix 10.20.0.0/24 vtep notanip",
        "+ evpn l3vni 50100 prefix 10.20.0.0/24 10.0.0.1", // missing `vtep`
        "+ evpn l3vni 50100 prefix 10.20.0.0 vtep 10.0.0.1", // not a cidr
        "+ evpn l3vni 50100 prefix 10.20.0.0/33 vtep 10.0.0.1", // v4 length overflow
        "+ evpn l3vni notanumber prefix 10.20.0.0/24 vtep 10.0.0.1",
        "- evpn l3vni 50100 prefix 10.20.0.0/24 vtep 10.0.0.1", // withdraw with a tail
        "+ evpn l4vni 50100 prefix 10.20.0.0/24 vtep 10.0.0.1", // unknown keyword
    ] {
        assert!(parse_evpn_event(bad).is_none(), "should reject: {bad}");
    }
}

#[test]
fn prefixes_are_keyed_per_l3_vni() {
    let mut learned = EvpnLearned::new();
    for (vni, vtep) in [(50100u32, "10.0.0.1"), (50200, "10.0.0.2")] {
        assert!(learned.apply(&EvpnMonitorEvent::PrefixUpdate {
            l3_vni: vni,
            prefix: "10.20.0.0/24".into(),
            vtep: ip(vtep),
            router_mac: None,
            gw: None,
            srv6_sid: None,
        }));
    }
    assert_eq!(learned.iter_prefixes().len(), 2);
    assert!(learned.apply(&EvpnMonitorEvent::MacUpdate {
        vni: 50100,
        mac: mac("aa:bb:cc:dd:ee:ff"),
        ip: None,
        vtep: ip("10.0.0.1"),
        srv6_sid: None,
    }));
    assert_eq!(learned.iter_prefixes().len(), 2);

    assert!(!learned.apply(&EvpnMonitorEvent::PrefixUpdate {
        l3_vni: 50100,
        prefix: "10.20.0.0/24".into(),
        vtep: ip("10.0.0.1"),
        router_mac: None,
        gw: None,
        srv6_sid: None,
    }));
    assert!(learned.apply(&EvpnMonitorEvent::PrefixWithdraw {
        l3_vni: 50100,
        prefix: "10.20.0.0/24".into(),
    }));
    let rest: Vec<(u32, &str)> = learned
        .iter_prefixes()
        .iter()
        .map(|i| (i.key.l3_vni, i.key.prefix.as_str()))
        .collect();
    assert_eq!(rest, vec![(50200, "10.20.0.0/24")]);
    assert!(!learned.apply(&EvpnMonitorEvent::PrefixWithdraw {
        l3_vni: 50100,
        prefix: "10.20.0.0/24".into(),
    }));
}

#[test]
fn parses_end_of_dump() {
    assert_eq!(
        parse_evpn_event("% end-of-dump").unwrap(),
        EvpnMonitorEvent::EndOfDump
    );
}

#[test]
fn tolerates_extra_whitespace() {
    let ev = parse_evpn_event("  +   evpn  vni 100   mac aa:bb:cc:dd:ee:ff   vtep  10.0.0.2 ")
        .unwrap();
    assert!(matches!(ev, EvpnMonitorEvent::MacUpdate { vni: 100, .. }));
}

#[test]
fn rejects_garbage_and_partial_lines() {
    for bad in [
        "",
        "   ",
        "% something-else",
        "% end-of-dump extra",
        "garbage line",
        "+ evpn vni", // truncated
        "+ evpn vni notanumber mac aa:bb:cc:dd:ee:ff vtep 10.0.0.2",
        "+ evpn vni 100 mac zz:zz:zz:zz:zz:zz vtep 10.0.0.2", // bad mac
        "+ evpn vni 100 mac aa:bb:cc:dd:ee:ff vtep notanip",
        "+ evpn vni 100 mac aa:bb:cc:dd:ee:ff", // no vtep
        "+ evpn vni 100 mac aa:bb:cc:dd:ee:ff ip 1.2.3.4", // ip but no vtep
        "* evpn vni 100 flood 10.0.0.2",        // bad sign
        "+ bgp vni 100 flood 10.0.0.2",         // wrong keyword
        "- evpn vni 100 mac aa:bb:cc:dd:ee:ff vtep 10.0.0.2", // withdraw w/ trailer
    ] {
        assert!(parse_evpn_event(bad).is_none(), "should reject: {bad:?}");
    }
}

#[test]
fn apply_add_replace_withdraw_change_detection() {
    let mut learned = EvpnLearned::new();
    let add = EvpnMonitorEvent::MacUpdate {
        vni: 100,
        mac: mac("aa:bb:cc:dd:ee:ff"),
        ip: Some(ip("192.168.1.5")),
        vtep: ip("10.0.0.2"),
        srv6_sid: None,
    };
    assert!(learned.apply(&add));
    assert!(!learned.apply(&add));
    let moved = EvpnMonitorEvent::MacUpdate {
        vni: 100,
        mac: mac("aa:bb:cc:dd:ee:ff"),
        ip: Some(ip("192.168.1.5")),
        vtep: ip("10.0.0.3"),
        srv6_sid: None,
    };
    assert!(learned.apply(&moved));
    assert_eq!(learned.iter_macs().len(), 1);
    let lm = learned.iter_macs()[0].value;
    assert_eq!(lm.vtep, ip("10.0.0.3"));

    let wd = EvpnMonitorEvent::MacWithdraw {
        vni: 100,
        mac: mac("aa:bb:cc:dd:ee:ff"),
    };
    assert!(learned.apply(&wd));
    assert!(!learned.apply(&wd));
    assert_eq!(learned.iter_macs().len(), 0);
}

#[test]
fn apply_flood_add_remove_and_end_of_dump() {
    let mut learned = EvpnLearned::new();
    let add = EvpnMonitorEvent::FloodUpdate {
        vni: 100,
        vtep: ip("10.0.0.2"),
        srv6_sid: None,
    };
    assert!(learned.apply(&add));
    assert!(!learned.apply(&add)); // duplicate flood VTEP: no change
    assert_eq!(learned.floods().iter().filter(|i| i.key.vni == 100).count(), 1);

    let rm = EvpnMonitorEvent::FloodWithdraw {
        vni: 100,
        vtep: ip("10.0.0.2"),
    };
    assert!(learned.apply(&rm));
    assert!(!learned.apply(&rm)); // already gone
    assert!(!learned.floods().iter().any(|i| i.key.vni == 100)); // empty set pruned

    assert!(!learned.apply(&EvpnMonitorEvent::EndOfDump));
}

#[test]
fn a_dump_asks_for_one_derivation_and_live_changes_for_one_each() {
    let mut learned = EvpnLearned::new();
    let mut state = MonitorState::new();
    assert!(!state.step(&mut learned, "+ evpn vni 100 flood 10.0.0.2"));
    assert!(!state.step(&mut learned, "+ evpn vni 100 flood 10.0.0.3"));
    assert!(!state.step(&mut learned, "usage: monitor evpn"));
    assert!(state.step(&mut learned, "% end-of-dump"));
    assert!(!state.step(&mut learned, "% end-of-dump")); // the dump was derived from already
    assert!(!state.step(&mut learned, "+ evpn vni 100 flood 10.0.0.3"));
    assert!(state.step(&mut learned, "- evpn vni 100 flood 10.0.0.3"));
    assert_eq!(learned.floods().len(), 1);
}

#[test]
fn an_empty_dump_asks_for_no_derivation() {
    let mut learned = EvpnLearned::new();
    let mut state = MonitorState::new();
    assert!(!state.step(&mut learned, "% end-of-dump"));
    assert!(state.step(&mut learned, "+ evpn vni 7 mac aa:bb:cc:dd:ee:ff vtep 10.0.0.2"));
}

#[test]
fn a_changed_sid_is_a_change() {
    let mut learned = EvpnLearned::new();
    let at = |sid: Option<&str>| EvpnMonitorEvent::FloodUpdate {
        vni: 7,
        vtep: ip("10.0.0.2"),
        srv6_sid: sid.map(|s| velstra::addr::Ipv6Addr::parse(s).unwrap()),
    };
    assert!(learned.apply(&at(None)));
    assert!(learned.apply(&at(Some("fc00:0:2::"))));
    assert!(!learned.apply(&at(Some("fc00:0:2::"))));
    assert_eq!(learned.floods().len(), 1);
}

#[test]
fn mac_addresses_are_six_pairs() {
    assert_eq!(parse_mac("aa:bb:cc:dd:ee:ff"), Some([0xaa, 0xbb, 0xcc, 0xdd, 0xee, 0xff]));
    assert_eq!(parse_mac("AA:bb:cc:dd:ee:0F"), Some([0xaa, 0xbb, 0xcc, 0xdd, 0xee, 0x0f]));
    assert_eq!(parse_mac("a:bb:cc:dd:ee:ff"), None);
    assert_eq!(parse_mac("aa:bb:cc:dd:ee"), None);
    assert_eq!(parse_mac("aa:bb:cc:dd:ee:ff:00"), None);
    assert_eq!(parse_mac("gg:bb:cc:dd:ee:ff"), None);
}
