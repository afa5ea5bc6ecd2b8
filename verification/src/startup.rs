//! What the command line of the controller asks for.

use vstd::prelude::*;

use crate::authz::{name_set, Authz, AuthzView};
use crate::config::ProtoName;
use crate::messages::{
    RuleMessage, RuleMessageView, SecurityGroupMessage, SecurityGroupMessageView, WireAction,
};
use crate::sorted::{map_views, Key, SortedMap, TextKey};
use crate::store::NodeId;
use crate::text::{
    chars_of, clone_strings, debug_str, debug_text, find_char, find_char_properties, find_from,
    parse_unsigned, same, string_of, sub_chars, unsigned_value, unsigned_value_nonnegative, views,
};

verus! {

/// The view of a result with a text as its error.
pub open spec fn text_result<T: View>(r: Result<T, String>) -> Result<T::V, Seq<char>> {
    match r {
        Ok(x) => Ok(x@),
        Err(e) => Err(e@),
    }
}

// ---------------------------------------------------------------------------
// Members of the cluster
// ---------------------------------------------------------------------------

/// The id of a member as a key.
#[derive(Clone, Copy, Debug, PartialEq, Eq, Structural)]
pub struct MemberKey {
    pub id: NodeId,
}

impl View for MemberKey {
    type V = u64;

    open spec fn view(&self) -> u64 {
        self.id
    }
}

impl Key for MemberKey {
    open spec fn before(a: u64, b: u64) -> bool {
        a < b
    }

    proof fn irreflexive(a: u64) {
    }

    proof fn transitive(a: u64, b: u64, c: u64) {
    }

    proof fn total(a: u64, b: u64) {
    }

    fn precedes(&self, other: &Self) -> (r: bool) {
        self.id < other.id
    }
}

/// The member that `id=address` names.
pub open spec fn peer_of(p: Seq<char>) -> Result<(u64, Seq<char>), Seq<char>> {
    let at = find_char(p, '=');
    if at == p.len() {
        Err("--peer must be id=host:port, got "@ + debug_text(p))
    } else {
        match unsigned_value(p.take(at as int), 10, u64::MAX as int) {
            Some(id) => Ok((id as u64, p.skip(at as int + 1))),
            None => Err("bad peer id in "@ + debug_text(p)),
        }
    }
}

/// The members that a list names, a later one in place of an earlier one with the same id, or what
/// is wrong with the first that cannot be read.
pub open spec fn peers_of(ps: Seq<Seq<char>>) -> Result<Map<u64, Seq<char>>, Seq<char>>
    decreases ps.len(),
{
    if ps.len() == 0 {
        Ok(Map::empty())
    } else {
        match peers_of(ps.drop_last()) {
            Err(e) => Err(e),
            Ok(m) => match peer_of(ps.last()) {
                Err(e) => Err(e),
                Ok((id, address)) => Ok(m.insert(id, address)),
            },
        }
    }
}

/// The members of the cluster: those that the list names, or the controller alone where it names
/// none.
pub open spec fn members_of(ps: Seq<Seq<char>>, self_id: u64, self_addr: Seq<char>) -> Result<
    Map<u64, Seq<char>>,
    Seq<char>,
> {
    if ps.len() == 0 {
        Ok(map![self_id => self_addr])
    } else {
        peers_of(ps)
    }
}

fn complaint(what: &str, text: &str) -> (r: String)
    ensures
        r@ == what@ + debug_text(text@),
{
    let mut s = String::from_str(what);
    s.append(debug_str(text).as_str());
    s
}

fn parse_peer(p: &str) -> (r: Result<(u64, String), String>)
    ensures
        match r {
            Ok((id, address)) => peer_of(p@) == Ok::<(u64, Seq<char>), Seq<char>>((id, address@)),
            Err(e) => peer_of(p@) == Err::<(u64, Seq<char>), Seq<char>>(e@),
        },
{
    let v = chars_of(p);
    let at: usize = find_from(&v, '=', 0);
    proof {
        assert(v@.skip(0) =~= v@);
        find_char_properties(v@, '=');
    }
    if at == v.len() {
        return Err(complaint("--peer must be id=host:port, got ", p));
    }
    let head = sub_chars(&v, 0, at);
    let tail = sub_chars(&v, at + 1, v.len());
    assert(head@ =~= v@.take(at as int));
    assert(tail@ =~= v@.skip(at as int + 1));
    match parse_unsigned(&head, 10, u64::MAX) {
        Some(id) => Ok((id, string_of(&tail))),
        None => Err(complaint("bad peer id in ", p)),
    }
}

proof fn peers_fail(ps: Seq<Seq<char>>, n: int)
    requires
        0 <= n <= ps.len(),
        peers_of(ps.take(n)) is Err,
    ensures
        peers_of(ps) == peers_of(ps.take(n)),
    decreases ps.len() - n,
{
    if n < ps.len() {
        assert(ps.take(n + 1).drop_last() =~= ps.take(n));
        peers_fail(ps, n + 1);
    } else {
        assert(ps.take(n) =~= ps);
    }
}

/// Reads the members of the cluster, as [`members_of`] says.
pub fn parse_peers(peers: &Vec<String>, self_id: u64, self_addr: &str) -> (r: Result<
    SortedMap<MemberKey, String>,
    String,
>)
    ensures
        match r {
            Ok(m) => m.inv() && members_of(views(peers@), self_id, self_addr@) == Ok::<
                Map<u64, Seq<char>>,
                Seq<char>,
            >(map_views(m@)),
            Err(e) => members_of(views(peers@), self_id, self_addr@) == Err::<
                Map<u64, Seq<char>>,
                Seq<char>,
            >(e@),
        },
{
    let ghost ps = views(peers@);
    let mut members: SortedMap<MemberKey, String> = SortedMap::new();
    assert(map_views(members@) =~= Map::empty());
    for i in 0..peers.len()
        invariant
            members.inv(),
            ps == views(peers@),
            peers_of(ps.take(i as int)) == Ok::<Map<u64, Seq<char>>, Seq<char>>(
                map_views(members@),
            ),
    {
        let ghost before = members@;
        proof {
            assert(ps.take(i as int + 1).drop_last() =~= ps.take(i as int));
            assert(ps.take(i as int + 1).last() == peers@[i as int]@);
        }
        match parse_peer(peers[i].as_str()) {
            Ok((id, address)) => {
                members.insert(MemberKey { id }, address);
                assert(map_views(members@) =~= map_views(before).insert(id, address@));
            },
            Err(e) => {
                proof {
                    peers_fail(ps, i as int + 1);
                }
                return Err(e);
            },
        }
    }
    assert(ps.take(ps.len() as int) =~= ps);
    if peers.len() == 0 {
        members.insert(MemberKey { id: self_id }, String::from_str(self_addr));
        assert(map_views(members@) =~= map![self_id => self_addr@]);
    }
    Ok(members)
}

// ---------------------------------------------------------------------------
// Security groups
// ---------------------------------------------------------------------------

/// The protocol that a word names.
pub open spec fn proto_word_of(s: Seq<char>) -> Option<ProtoName> {
    if s == "tcp"@ {
        Some(ProtoName::Tcp)
    } else if s == "udp"@ {
        Some(ProtoName::Udp)
    } else if s == "icmp"@ {
        Some(ProtoName::Icmp)
    } else {
        None
    }
}

fn read_proto(s: &str) -> (r: Option<ProtoName>)
    ensures
        r == proto_word_of(s@),
{
    if same(s, "tcp") {
        Some(ProtoName::Tcp)
    } else if same(s, "udp") {
        Some(ProtoName::Udp)
    } else if same(s, "icmp") {
        Some(ProtoName::Icmp)
    } else {
        None
    }
}

/// The rule that `protocol:port` names.
pub open spec fn cli_rule(spec_text: Seq<char>, action: WireAction) -> Result<
    RuleMessageView,
    Seq<char>,
> {
    let at = find_char(spec_text, ':');
    if at == spec_text.len() {
        Err("rule "@ + debug_text(spec_text) + " must be proto:port (e.g. tcp:80)"@)
    } else {
        match proto_word_of(spec_text.take(at as int)) {
            None => Err(
                "unknown proto "@ + debug_text(spec_text.take(at as int)) + " in rule "@
                    + debug_text(spec_text) + " (use tcp/udp/icmp)"@,
            ),
            Some(proto) => match unsigned_value(spec_text.skip(at as int + 1), 10, 65535) {
                None => Err("bad port in rule "@ + debug_text(spec_text)),
                Some(port) => Ok(
                    RuleMessageView {
                        proto,
                        port: port as u32,
                        action,
                        log: false,
                        src: Seq::empty(),
                    },
                ),
            },
        }
    }
}

/// Reads a rule, as [`cli_rule`] says.
pub fn parse_cli_rule(text: &str, action: WireAction) -> (r: Result<RuleMessage, String>)
    ensures
        text_result(r) == cli_rule(text@, action),
{
    let v = chars_of(text);
    let at: usize = find_from(&v, ':', 0);
    proof {
        assert(v@.skip(0) =~= v@);
        find_char_properties(v@, ':');
    }
    if at == v.len() {
        let mut e = complaint("rule ", text);
        e.append(" must be proto:port (e.g. tcp:80)");
        return Err(e);
    }
    let head = sub_chars(&v, 0, at);
    let tail = sub_chars(&v, at + 1, v.len());
    assert(head@ =~= v@.take(at as int));
    assert(tail@ =~= v@.skip(at as int + 1));
    let word = string_of(&head);
    let proto = match read_proto(word.as_str()) {
        Some(p) => p,
        None => {
            let mut e = complaint("unknown proto ", word.as_str());
            e.append(" in rule ");
            e.append(debug_str(text).as_str());
            e.append(" (use tcp/udp/icmp)");
            return Err(e);
        },
    };
    proof {
        unsigned_value_nonnegative(tail@, 10, 65535);
    }
    match parse_unsigned(&tail, 10, 65535) {
        Some(port) => {
            let port: u32 = port as u32;
            Ok(RuleMessage { proto, port, action, log: false, src: String::new() })
        },
        None => Err(complaint("bad port in rule ", text)),
    }
}

/// The rules that texts name, all with one action, or what is wrong with the first that cannot be
/// read.
pub open spec fn cli_rules(texts: Seq<Seq<char>>, action: WireAction) -> Result<
    Seq<RuleMessageView>,
    Seq<char>,
>
    decreases texts.len(),
{
    if texts.len() == 0 {
        Ok(Seq::empty())
    } else {
        match cli_rules(texts.drop_last(), action) {
            Err(e) => Err(e),
            Ok(rs) => match cli_rule(texts.last(), action) {
                Err(e) => Err(e),
                Ok(r) => Ok(rs.push(r)),
            },
        }
    }
}

proof fn cli_rules_fail(texts: Seq<Seq<char>>, action: WireAction, n: int)
    requires
        0 <= n <= texts.len(),
        cli_rules(texts.take(n), action) is Err,
    ensures
        cli_rules(texts, action) == cli_rules(texts.take(n), action),
    decreases texts.len() - n,
{
    if n < texts.len() {
        assert(texts.take(n + 1).drop_last() =~= texts.take(n));
        cli_rules_fail(texts, action, n + 1);
    } else {
        assert(texts.take(n) =~= texts);
    }
}

fn push_rules(rules: &mut Vec<RuleMessage>, texts: &Vec<String>, action: WireAction) -> (r: Result<
    (),
    String,
>)
    ensures
        match r {
            Ok(_) => cli_rules(views(texts@), action) is Ok && views(final(rules)@) == views(
                old(rules)@,
            ) + cli_rules(views(texts@), action)->Ok_0,
            Err(e) => cli_rules(views(texts@), action) == Err::<Seq<RuleMessageView>, Seq<char>>(
                e@,
            ),
        },
{
    let ghost ts = views(texts@);
    let ghost start = views(rules@);
    assert(start + Seq::<RuleMessageView>::empty() =~= start);
    for i in 0..texts.len()
        invariant
            ts == views(texts@),
            cli_rules(ts.take(i as int), action) is Ok,
            views(rules@) == start + cli_rules(ts.take(i as int), action)->Ok_0,
    {
        let ghost before = views(rules@);
        proof {
            assert(ts.take(i as int + 1).drop_last() =~= ts.take(i as int));
            assert(ts.take(i as int + 1).last() == texts@[i as int]@);
        }
        match parse_cli_rule(texts[i].as_str(), action) {
            Ok(rule) => {
                rules.push(rule);
                assert(views(rules@) =~= before.push(rule@));
                assert(views(rules@) =~= start + cli_rules(ts.take(i as int + 1), action)->Ok_0);
            },
            Err(e) => {
                proof {
                    cli_rules_fail(ts, action, i as int + 1);
                }
                return Err(e);
            },
        }
    }
    assert(ts.take(ts.len() as int) =~= ts);
    Ok(())
}

/// The default action that a word names.
pub open spec fn default_action_of(s: Seq<char>) -> Result<WireAction, Seq<char>> {
    if s == "pass"@ {
        Ok(WireAction::Pass)
    } else if s == "drop"@ {
        Ok(WireAction::Drop)
    } else {
        Err("unknown default_action "@ + debug_text(s) + " (use pass or drop)"@)
    }
}

/// A security group as the command line describes it.
#[derive(Debug)]
pub struct GroupArgs {
    pub name: String,
    pub default_action: String,
    pub drop_icmp: bool,
    pub stateful: bool,
    pub allow: Vec<String>,
    pub deny: Vec<String>,
    pub block: Vec<String>,
}

/// What [`GroupArgs`] hold.
#[verifier::ext_equal]
pub struct GroupArgsView {
    pub name: Seq<char>,
    pub default_action: Seq<char>,
    pub drop_icmp: bool,
    pub stateful: bool,
    pub allow: Seq<Seq<char>>,
    pub deny: Seq<Seq<char>>,
    pub block: Seq<Seq<char>>,
}

impl View for GroupArgs {
    type V = GroupArgsView;

    open spec fn view(&self) -> GroupArgsView {
        GroupArgsView {
            name: self.name@,
            default_action: self.default_action@,
            drop_icmp: self.drop_icmp,
            stateful: self.stateful,
            allow: views(self.allow@),
            deny: views(self.deny@),
            block: views(self.block@),
        }
    }
}

/// The security group that the command line asks for: the rules that allow come before those that
/// deny.
pub open spec fn group_from_args(a: GroupArgsView) -> Result<SecurityGroupMessageView, Seq<char>> {
    match default_action_of(a.default_action) {
        Err(e) => Err(e),
        Ok(default_action) => match cli_rules(a.allow, WireAction::Pass) {
            Err(e) => Err(e),
            Ok(allowed) => match cli_rules(a.deny, WireAction::Drop) {
                Err(e) => Err(e),
                Ok(denied) => Ok(
                    SecurityGroupMessageView {
                        name: a.name,
                        default_action,
                        drop_icmp: a.drop_icmp,
                        stateful: a.stateful,
                        blocklist: a.block,
                        rules: allowed + denied,
                    },
                ),
            },
        },
    }
}

/// Reads a security group, as [`group_from_args`] says.
pub fn security_group_message(a: &GroupArgs) -> (r: Result<SecurityGroupMessage, String>)
    ensures
        text_result(r) == group_from_args(a@),
{
    let word = a.default_action.as_str();
    let default_action = if same(word, "pass") {
        WireAction::Pass
    } else if same(word, "drop") {
        WireAction::Drop
    } else {
        let mut e = complaint("unknown default_action ", word);
        e.append(" (use pass or drop)");
        return Err(e);
    };
    let mut rules: Vec<RuleMessage> = Vec::new();
    match push_rules(&mut rules, &a.allow, WireAction::Pass) {
        Ok(_) => {},
        Err(e) => {
            return Err(e);
        },
    }
    assert(views(rules@) =~= cli_rules(views(a.allow@), WireAction::Pass)->Ok_0);
    match push_rules(&mut rules, &a.deny, WireAction::Drop) {
        Ok(_) => {},
        Err(e) => {
            return Err(e);
        },
    }
    Ok(
        SecurityGroupMessage {
            name: a.name.clone(),
            default_action,
            drop_icmp: a.drop_icmp,
            stateful: a.stateful,
            blocklist: clone_strings(&a.block),
            rules,
        },
    )
}

// ---------------------------------------------------------------------------
// Serving
// ---------------------------------------------------------------------------

/// How a channel is secured.
#[derive(Clone, Copy, Debug, PartialEq, Eq, Structural)]
pub enum Transport {
    Plain,
    /// The server presents a certificate.
    Tls,
    /// Both sides present certificates.
    Mutual,
}

/// How the agent and the administrative channels are secured: with a certificate and its key they
/// are encrypted, and with the authority of the clients as well both sides are authenticated.
pub fn server_transport(cert: bool, key: bool, client_ca: bool) -> (r: Transport)
    ensures
        r == (if cert && key {
            if client_ca {
                Transport::Mutual
            } else {
                Transport::Tls
            }
        } else {
            Transport::Plain
        }),
{
    if cert && key {
        if client_ca {
            Transport::Mutual
        } else {
            Transport::Tls
        }
    } else {
        Transport::Plain
    }
}

/// How the channel between controllers is secured: without a shared authority there is nothing to
/// authenticate a peer by, so it is mutual or plain.
pub fn peer_transport(cert: bool, key: bool, client_ca: bool) -> (r: Transport)
    ensures
        r == (if cert && key && client_ca {
            Transport::Mutual
        } else {
            Transport::Plain
        }),
{
    if cert && key && client_ca {
        Transport::Mutual
    } else {
        Transport::Plain
    }
}

/// The scheme of a peer's address.
pub fn peer_scheme(transport: Transport) -> (r: &'static str)
    ensures
        r@ == (if transport == Transport::Plain {
            "http"@
        } else {
            "https"@
        }),
{
    match transport {
        Transport::Plain => "http",
        Transport::Tls => "https",
        Transport::Mutual => "https",
    }
}

/// The endpoint at which a peer is dialled.
pub fn peer_endpoint(transport: Transport, addr: &str) -> (r: String)
    ensures
        r@ == (if transport == Transport::Plain {
            "http"@
        } else {
            "https"@
        }) + "://"@ + addr@,
{
    let mut s = String::from_str(peer_scheme(transport));
    s.append("://");
    s.append(addr);
    s
}

/// Whether the controller has anything to serve: a directory of files, a fabric, or a cluster.
pub fn check_sources(config_dir: bool, topology: bool, node_id: bool) -> (r: Result<(), String>)
    ensures
        match r {
            Ok(_) => config_dir || topology || node_id,
            Err(e) => !config_dir && !topology && !node_id && e@
                == "provide --config-dir, --topology, or --node-id (cluster mode)"@,
        },
{
    if config_dir || topology || node_id {
        Ok(())
    } else {
        Err(String::from_str("provide --config-dir, --topology, or --node-id (cluster mode)"))
    }
}

/// The policy of the administrative channel: enforced exactly where clients present certificates.
pub fn admin_policy(client_ca: bool, admins: Vec<String>) -> (r: Authz)
    ensures
        r@ == (if client_ca {
            AuthzView { admins: name_set(views(admins@)), enforced: true }
        } else {
            AuthzView { admins: Set::empty(), enforced: false }
        }),
{
    if client_ca {
        Authz::new(admins, true)
    } else {
        Authz::disabled()
    }
}

/// The policy of the HTTP gateway: enforced exactly where there are tokens to tell callers apart
/// by.
pub fn gateway_policy(tokens: bool, admins: Vec<String>) -> (r: Authz)
    ensures
        r@ == (if tokens {
            AuthzView { admins: name_set(views(admins@)), enforced: true }
        } else {
            AuthzView { admins: Set::empty(), enforced: false }
        }),
{
    admin_policy(tokens, admins)
}

/// The caller's name and the token that `name=token` gives.
pub open spec fn token_of(t: Seq<char>) -> Result<(Seq<char>, Seq<char>), Seq<char>> {
    let at = find_char(t, '=');
    if at == t.len() {
        Err("--rest-token must be CN=TOKEN, got "@ + debug_text(t))
    } else {
        Ok((t.take(at as int), t.skip(at as int + 1)))
    }
}

/// The names of tokens, by token, a later one in place of an earlier one, or what is wrong with the
/// first that cannot be read.
pub open spec fn tokens_of(ts: Seq<Seq<char>>) -> Result<Map<Seq<char>, Seq<char>>, Seq<char>>
    decreases ts.len(),
{
    if ts.len() == 0 {
        Ok(Map::empty())
    } else {
        match tokens_of(ts.drop_last()) {
            Err(e) => Err(e),
            Ok(m) => match token_of(ts.last()) {
                Err(e) => Err(e),
                Ok((name, token)) => Ok(m.insert(token, name)),
            },
        }
    }
}

proof fn tokens_fail(ts: Seq<Seq<char>>, n: int)
    requires
        0 <= n <= ts.len(),
        tokens_of(ts.take(n)) is Err,
    ensures
        tokens_of(ts) == tokens_of(ts.take(n)),
    decreases ts.len() - n,
{
    if n < ts.len() {
        assert(ts.take(n + 1).drop_last() =~= ts.take(n));
        tokens_fail(ts, n + 1);
    } else {
        assert(ts.take(n) =~= ts);
    }
}

fn parse_token(t: &str) -> (r: Result<(String, String), String>)
    ensures
        match r {
            Ok((name, token)) => token_of(t@) == Ok::<(Seq<char>, Seq<char>), Seq<char>>(
                (name@, token@),
            ),
            Err(e) => token_of(t@) == Err::<(Seq<char>, Seq<char>), Seq<char>>(e@),
        },
{
    let v = chars_of(t);
    let at: usize = find_from(&v, '=', 0);
    proof {
        assert(v@.skip(0) =~= v@);
        find_char_properties(v@, '=');
    }
    if at == v.len() {
        return Err(complaint("--rest-token must be CN=TOKEN, got ", t));
    }
    let head = sub_chars(&v, 0, at);
    let tail = sub_chars(&v, at + 1, v.len());
    assert(head@ =~= v@.take(at as int));
    assert(tail@ =~= v@.skip(at as int + 1));
    Ok((string_of(&head), string_of(&tail)))
}

/// Reads the tokens of the HTTP gateway, as [`tokens_of`] says.
pub fn parse_tokens(texts: &Vec<String>) -> (r: Result<SortedMap<TextKey, String>, String>)
    ensures
        match r {
            Ok(m) => m.inv() && tokens_of(views(texts@)) == Ok::<
                Map<Seq<char>, Seq<char>>,
                Seq<char>,
            >(map_views(m@)),
            Err(e) => tokens_of(views(texts@)) == Err::<Map<Seq<char>, Seq<char>>, Seq<char>>(e@),
        },
{
    let ghost ts = views(texts@);
    let mut tokens: SortedMap<TextKey, String> = SortedMap::new();
    assert(map_views(tokens@) =~= Map::empty());
    for i in 0..texts.len()
        invariant
            tokens.inv(),
            ts == views(texts@),
            tokens_of(ts.take(i as int)) == Ok::<Map<Seq<char>, Seq<char>>, Seq<char>>(
                map_views(tokens@),
            ),
    {
        let ghost before = tokens@;
        proof {
            assert(ts.take(i as int + 1).drop_last() =~= ts.take(i as int));
            assert(ts.take(i as int + 1).last() == texts@[i as int]@);
        }
        match parse_token(texts[i].as_str()) {
            Ok((name, token)) => {
                let ghost t = token@;
                tokens.insert(TextKey { text: token }, name);
                assert(map_views(tokens@) =~= map_views(before).insert(t, name@));
            },
            Err(e) => {
                proof {
                    tokens_fail(ts, i as int + 1);
                }
                return Err(e);
            },
        }
    }
    assert(ts.take(ts.len() as int) =~= ts);
    Ok(tokens)
}

/// The seconds between two scans of the files: at least one.
pub fn poll_seconds(interval: u64) -> (r: u64)
    ensures
        r == (if interval == 0 {
            1
        } else {
            interval
        }),
{
    if interval == 0 {
        1
    } else {
        interval
    }
}

/// Where the fabric is kept after a change: in a cluster the replicated log keeps it, and no file.
pub fn fabric_file(path: Option<String>, cluster: bool) -> (r: Option<String>)
    ensures
        r == (if cluster {
            None
        } else {
            path
        }),
{
    if cluster {
        None
    } else {
        path
    }
}

// ---------------------------------------------------------------------------
// Laws
// ---------------------------------------------------------------------------

proof fn first_at(a: Seq<char>, c: char, b: Seq<char>)
    requires
        !a.contains(c),
    ensures
        find_char(a + seq![c] + b, c) == a.len(),
        (a + seq![c] + b).take(a.len() as int) == a,
        (a + seq![c] + b).skip(a.len() as int + 1) == b,
{
    let s = a + seq![c] + b;
    assert(s[a.len() as int] == c);
    assert forall|k: int| 0 <= k < a.len() implies s[k] != c by {
        if s[k] == c {
            assert(a[k] == c);
        }
    }
    crate::text::find_char_unique(s, c, a.len() as int);
    assert(s.take(a.len() as int) =~= a);
    assert(s.skip(a.len() as int + 1) =~= b);
}

proof fn nowhere(s: Seq<char>, c: char)
    requires
        !s.contains(c),
    ensures
        find_char(s, c) == s.len(),
{
    find_char_properties(s, c);
    if find_char(s, c) < s.len() {
        assert(s[find_char(s, c) as int] == c);
    }
}

/// A member is named by its number, an equals sign and its address, whatever the address holds; a text
/// without an equals sign, or with no number before the first, names none.
pub proof fn member_is_named(id: Seq<char>, address: Seq<char>, p: Seq<char>)
    requires
        !id.contains('='),
        !p.contains('='),
    ensures
        match unsigned_value(id, 10, u64::MAX as int) {
            Some(n) => peer_of(id + "="@ + address) matches Ok((x, a)) && x == n && a == address,
            None => peer_of(id + "="@ + address) is Err,
        },
        peer_of(p) is Err,
{
    reveal_strlit("=");
    assert("="@ =~= seq!['=']);
    first_at(id, '=', address);
    nowhere(p, '=');
    unsigned_value_nonnegative(id, 10, u64::MAX as int);
    let s = id + seq!['='] + address;
    assert(s.len() > id.len());
}

/// A list of members reads one by one: a further member takes the place of an earlier one with its
/// number, and one that cannot be read spoils the list. Without a list the controller is alone.
pub proof fn members_are_read_in_order(
    ps: Seq<Seq<char>>,
    p: Seq<char>,
    self_id: u64,
    self_addr: Seq<char>,
)
    ensures
        members_of(Seq::empty(), self_id, self_addr) matches Ok(m) && m.dom() == set![self_id]
            && m[self_id] == self_addr,
        members_of(seq![p], self_id, self_addr) is Ok <==> peer_of(p) is Ok,
        peer_of(p) matches Ok((id, address)) ==> (members_of(
            seq![p],
            self_id,
            self_addr,
        ) matches Ok(m) && m.dom() == set![id] && m[id] == address),
        ps.len() > 0 ==> (members_of(ps.push(p), self_id, self_addr) is Ok <==> members_of(
            ps,
            self_id,
            self_addr,
        ) is Ok && peer_of(p) is Ok),
        ps.len() > 0 ==> (members_of(ps.push(p), self_id, self_addr) matches Ok(m) ==> m
            == members_of(ps, self_id, self_addr)->Ok_0.insert(
            peer_of(p)->Ok_0.0,
            peer_of(p)->Ok_0.1,
        )),
{
    let one = seq![p];
    assert(one.drop_last() =~= Seq::<Seq<char>>::empty());
    assert(peers_of(one.drop_last()) == Ok::<Map<u64, Seq<char>>, Seq<char>>(Map::empty()));
    assert(ps.push(p).drop_last() =~= ps);
    assert(map![self_id => self_addr].dom() =~= set![self_id]);
    if let Ok((id, address)) = peer_of(p) {
        assert(Map::<u64, Seq<char>>::empty().insert(id, address).dom() =~= set![id]);
    }
}

/// A token is given by a name, an equals sign and the token, whatever the token holds; a text without
/// an equals sign gives none.
pub proof fn token_is_named(name: Seq<char>, token: Seq<char>, t: Seq<char>)
    requires
        !name.contains('='),
        !t.contains('='),
    ensures
        token_of(name + "="@ + token) matches Ok((n, x)) && n == name && x == token,
        token_of(t) is Err,
{
    reveal_strlit("=");
    assert("="@ =~= seq!['=']);
    first_at(name, '=', token);
    nowhere(t, '=');
    let s = name + seq!['='] + token;
    assert(s.len() > name.len());
}

/// Tokens read one by one: a further one takes the place of an earlier one that is the same token, and
/// one that cannot be read spoils the list.
pub proof fn tokens_are_read_in_order(ts: Seq<Seq<char>>, t: Seq<char>)
    ensures
        tokens_of(Seq::empty()) matches Ok(m) && m.dom().is_empty(),
        tokens_of(ts.push(t)) is Ok <==> tokens_of(ts) is Ok && token_of(t) is Ok,
        tokens_of(ts.push(t)) matches Ok(m) ==> m == tokens_of(ts)->Ok_0.insert(
            token_of(t)->Ok_0.1,
            token_of(t)->Ok_0.0,
        ),
{
    assert(ts.push(t).drop_last() =~= ts);
}

/// A rule is given by a protocol, a colon and a port: the three protocols by their names, the port as
/// a number of 16 bits. It has the action asked for, for every source, and is not logged.
pub proof fn rule_is_given(proto: Seq<char>, port: Seq<char>, t: Seq<char>, action: WireAction)
    requires
        !proto.contains(':'),
        !t.contains(':'),
    ensures
        cli_rule(proto + ":"@ + port, action) is Ok <==> (proto == "tcp"@ || proto == "udp"@ || proto
            == "icmp"@) && unsigned_value(port, 10, 0xFFFF) is Some,
        cli_rule(proto + ":"@ + port, action) matches Ok(r) ==> {
            &&& proto == "tcp"@ ==> r.proto == ProtoName::Tcp
            &&& proto == "udp"@ ==> r.proto == ProtoName::Udp
            &&& proto == "icmp"@ ==> r.proto == ProtoName::Icmp
            &&& unsigned_value(port, 10, 0xFFFF) matches Some(n) && n == r.port
            &&& r.action == action
            &&& !r.log
            &&& r.src.len() == 0
        },
        cli_rule(t, action) is Err,
{
    reveal_strlit(":");
    reveal_strlit("tcp");
    reveal_strlit("udp");
    reveal_strlit("icmp");
    assert(":"@ =~= seq![':']);
    first_at(proto, ':', port);
    nowhere(t, ':');
    unsigned_value_nonnegative(port, 10, 0xFFFF);
    let s = proto + seq![':'] + port;
    assert(s.len() > proto.len());
    assert("tcp"@[0] == 't' && "udp"@[0] == 'u' && "icmp"@[0] == 'i');
}

/// Rules read one by one, in their order, and one that cannot be read spoils the list.
pub proof fn rules_are_read_in_order(texts: Seq<Seq<char>>, t: Seq<char>, action: WireAction)
    ensures
        cli_rules(Seq::empty(), action) matches Ok(r) && r.len() == 0,
        cli_rules(texts.push(t), action) is Ok <==> cli_rules(texts, action) is Ok && cli_rule(
            t,
            action,
        ) is Ok,
        cli_rules(texts.push(t), action) matches Ok(r) ==> r == cli_rules(texts, action)->Ok_0.push(
            cli_rule(t, action)->Ok_0,
        ),
{
    assert(texts.push(t).drop_last() =~= texts);
}

/// A security group is given by the command line exactly where its default action is one of the two
/// words and all its rules can be read. It is as the command line describes it: first the rules that
/// let packets pass, then those that drop them.
pub proof fn group_is_given(a: GroupArgsView)
    ensures
        group_from_args(a) is Ok <==> (a.default_action == "pass"@ || a.default_action == "drop"@)
            && cli_rules(a.allow, WireAction::Pass) is Ok && cli_rules(
            a.deny,
            WireAction::Drop,
        ) is Ok,
        group_from_args(a) matches Ok(g) ==> {
            let allowed = cli_rules(a.allow, WireAction::Pass)->Ok_0;
            let denied = cli_rules(a.deny, WireAction::Drop)->Ok_0;
            &&& g.name == a.name
            &&& a.default_action == "pass"@ ==> g.default_action == WireAction::Pass
            &&& a.default_action == "drop"@ ==> g.default_action == WireAction::Drop
            &&& g.drop_icmp == a.drop_icmp
            &&& g.stateful == a.stateful
            &&& g.blocklist == a.block
            &&& g.rules == allowed + denied
        },
{
    reveal_strlit("pass");
    reveal_strlit("drop");
    assert("pass"@[0] == 'p' && "drop"@[0] == 'd');
}

/// What is seen of the records of this module is all that they hold, field by field.
pub proof fn startup_records_are_seen_whole(
    group_args: GroupArgs,
)
    ensures
        group_args@.name == group_args.name@,
        group_args@.default_action == group_args.default_action@,
        group_args@.drop_icmp == group_args.drop_icmp,
        group_args@.stateful == group_args.stateful,
        group_args@.allow == views(group_args.allow@),
        group_args@.deny == views(group_args.deny@),
        group_args@.block == views(group_args.block@),
{
}

/// An argument that cannot be read is repeated with what was expected of it.
pub proof fn unreadable_argument_is_told(s: Seq<char>, action: WireAction)
    ensures
        !s.contains('=') ==> peer_of(s) == Err::<(u64, Seq<char>), Seq<char>>(
            "--peer must be id=host:port, got "@ + debug_text(s),
        ) && token_of(s) == Err::<(Seq<char>, Seq<char>), Seq<char>>(
            "--rest-token must be CN=TOKEN, got "@ + debug_text(s),
        ),
        s.contains('=') ==> token_of(s) is Ok && (peer_of(s) matches Err(e) ==> e
            == "bad peer id in "@ + debug_text(s)),
        default_action_of(s) matches Err(e) ==> e == "unknown default_action "@ + debug_text(s)
            + " (use pass or drop)"@,
        !s.contains(':') ==> cli_rule(s, action) == Err::<RuleMessageView, Seq<char>>(
            "rule "@ + debug_text(s) + " must be proto:port (e.g. tcp:80)"@,
        ),
        forall|at: int|
            0 <= at < s.len() && #[trigger] s[at] == ':' && !s.take(at).contains(':') ==> {
                let word = s.take(at);
                let known = word == "tcp"@ || word == "udp"@ || word == "icmp"@;
                &&& !known ==> cli_rule(s, action) == Err::<RuleMessageView, Seq<char>>(
                    "unknown proto "@ + debug_text(word) + " in rule "@ + debug_text(s)
                        + " (use tcp/udp/icmp)"@,
                )
                &&& known ==> (cli_rule(s, action) matches Err(e) ==> e == "bad port in rule "@
                    + debug_text(s))
            },
{
    find_char_properties(s, '=');
    find_char_properties(s, ':');
    assert forall|at: int|
        0 <= at < s.len() && #[trigger] s[at] == ':' && !s.take(at).contains(':') implies find_char(
        s,
        ':',
    ) == at by {
        let i = find_char(s, ':');
        if i < at {
            assert(s.take(at)[i as int] == ':');
        }
    }
}

} // verus!
