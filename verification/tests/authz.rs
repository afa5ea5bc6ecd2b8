//! Who may change the fabric.

use velstra::authz::{authorize, caller_of, cn_permitted, common_name, peer_cn, Authz, Caller};

fn admin() -> Caller {
    Caller::Cert("ops-admin".into())
}

fn node(id: &str) -> Caller {
    Caller::Cert(id.into())
}

fn policy() -> Authz {
    Authz::new(vec!["ops-admin".to_string()], true)
}

#[test]
fn disabled_policy_allows_everything() {
    let a = Authz::disabled();
    assert!(a.allow_host(&Caller::Anonymous, "web-1"));
    assert!(a.allow_admin(&Caller::Anonymous));
}

#[test]
fn admin_may_write_any_host_and_fleet_wide() {
    let a = policy();
    assert!(a.allow_host(&admin(), "web-1"));
    assert!(a.allow_host(&admin(), "db-9"));
    assert!(a.allow_admin(&admin()));
}

#[test]
fn node_may_write_only_its_own_host() {
    let a = policy();
    assert!(a.allow_host(&node("web-1"), "web-1"));
    assert!(!a.allow_host(&node("web-1"), "db-9"));
    assert!(!a.allow_admin(&node("web-1")));
}

#[test]
fn anonymous_is_denied_when_enforced() {
    let a = policy();
    assert!(!a.allow_host(&Caller::Anonymous, "web-1"));
    assert!(!a.allow_admin(&Caller::Anonymous));
}

#[test]
fn cn_allowlist_admits_only_listed_controllers() {
    let allowed: Vec<String> = vec!["ctrl-a".to_string(), "ctrl-b".to_string()];
    assert!(cn_permitted(&allowed, Some("ctrl-a")));
    assert!(cn_permitted(&allowed, Some("ctrl-b")));
    assert!(!cn_permitted(&allowed, Some("agent-node-7")));
    assert!(!cn_permitted(&allowed, None));
    assert!(!cn_permitted(&Vec::new(), Some("ctrl-a")));
}

#[test]
fn peers_are_told_why_they_are_turned_away() {
    let allowed = Some(vec!["ctrl-a".to_string()]);
    assert_eq!(authorize(&allowed, Some("ctrl-a")), Ok(()));
    assert_eq!(authorize(&None, None), Ok(()));
    assert_eq!(
        authorize(&allowed, Some("agent \"7\"")),
        Err("raft peer CN \"agent \\\"7\\\"\" is not an authorized controller".to_string())
    );
    assert_eq!(
        authorize(&allowed, None),
        Err("raft peer presented no client certificate".to_string())
    );
}

fn tlv(tag: u8, content: &[u8]) -> Vec<u8> {
    let mut v = vec![tag];
    if content.len() < 128 {
        v.push(content.len() as u8);
    } else {
        v.push(0x82);
        v.push((content.len() / 256) as u8);
        v.push((content.len() % 256) as u8);
    }
    v.extend_from_slice(content);
    v
}

fn seq(parts: &[Vec<u8>]) -> Vec<u8> {
    tlv(0x30, &parts.concat())
}

/// A distinguished name with common names of the given string types.
fn name(cns: &[(u8, &[u8])]) -> Vec<u8> {
    let sets: Vec<Vec<u8>> = cns
        .iter()
        .map(|(tag, text)| {
            tlv(0x31, &seq(&[tlv(0x06, &[0x55, 0x04, 0x03]), tlv(*tag, text)]))
        })
        .collect();
    seq(&sets)
}

/// A certificate for the given subject, with an empty key and signature.
fn certificate(subject: Vec<u8>) -> Vec<u8> {
    let algorithm = seq(&[
        tlv(0x06, &[0x2a, 0x86, 0x48, 0x86, 0xf7, 0x0d, 0x01, 0x01, 0x0b]),
        tlv(0x05, &[]),
    ]);
    let key_algorithm = seq(&[
        tlv(0x06, &[0x2a, 0x86, 0x48, 0x86, 0xf7, 0x0d, 0x01, 0x01, 0x01]),
        tlv(0x05, &[]),
    ]);
    let validity = seq(&[tlv(0x17, b"240101000000Z"), tlv(0x17, b"340101000000Z")]);
    let tbs = seq(&[
        tlv(0xa0, &tlv(0x02, &[2])),
        tlv(0x02, &[1]),
        algorithm.clone(),
        name(&[(0x0c, b"the-ca")]),
        validity,
        subject,
        seq(&[key_algorithm, tlv(0x03, &[0, 0x30, 0x00])]),
    ]);
    seq(&[tbs, algorithm, tlv(0x03, &[0, 1, 2, 3])])
}

#[test]
fn the_leaf_s_first_common_name_is_the_caller() {
    let leaf = certificate(name(&[(0x0c, b"web-1"), (0x0c, b"db-9")]));
    let issuer = certificate(name(&[(0x0c, b"the-ca")]));
    assert_eq!(common_name(&leaf), Some("web-1".to_string()));
    let certs = Some(vec![leaf, issuer]);
    assert_eq!(peer_cn(&certs), Some("web-1".to_string()));
    assert!(matches!(caller_of(&certs), Caller::Cert(cn) if cn == "web-1"));
}

#[test]
fn a_leaf_without_a_readable_name_is_anonymous() {
    let unnamed = certificate(name(&[]));
    assert_eq!(common_name(&unnamed), None);
    let wide = certificate(name(&[(0x1e, &[0x00, 0x61]), (0x0c, b"web-1")]));
    assert_eq!(common_name(&wide), None);
    assert_eq!(common_name(b"not a certificate"), None);
    assert!(matches!(caller_of(&None), Caller::Anonymous));
    assert!(matches!(caller_of(&Some(Vec::new())), Caller::Anonymous));
    assert!(matches!(caller_of(&Some(vec![unnamed])), Caller::Anonymous));
    assert!(matches!(caller_of(&Some(vec![vec![0x30]])), Caller::Anonymous));
}
