//! Who may change the fabric, by the common name of the client certificate.

use vstd::prelude::*;

use crate::text::{debug_str, debug_text, opt_view, same, views};

verus! {

/// Who is calling, as established by the transport.
#[derive(Debug)]
pub enum Caller {
    /// A client that presented a certificate with this common name.
    Cert(String),
    /// No usable client certificate.
    Anonymous,
}

/// What a [`Caller`] holds.
#[verifier::ext_equal]
pub enum CallerView {
    Cert(Seq<char>),
    Anonymous,
}

impl View for Caller {
    type V = CallerView;

    open spec fn view(&self) -> CallerView {
        match self {
            Caller::Cert(name) => CallerView::Cert(name@),
            Caller::Anonymous => CallerView::Anonymous,
        }
    }
}

/// The authorization policy of the administrative calls.
#[derive(Debug)]
pub struct Authz {
    admins: Vec<String>,
    enforced: bool,
}

/// What an [`Authz`] holds: the names that may perform any write, and whether the policy is
/// enforced at all.
#[verifier::ext_equal]
pub struct AuthzView {
    pub admins: Set<Seq<char>>,
    pub enforced: bool,
}

impl View for Authz {
    type V = AuthzView;

    closed spec fn view(&self) -> AuthzView {
        AuthzView { admins: name_set(views(self.admins@)), enforced: self.enforced }
    }
}

/// The names in a list.
pub open spec fn name_set(names: Seq<Seq<char>>) -> Set<Seq<char>> {
    Set::new(|n: Seq<char>| names.contains(n))
}

impl AuthzView {
    /// Whether `caller` presented one of the administrators' names.
    pub open spec fn admin(self, caller: CallerView) -> bool {
        caller is Cert && self.admins.contains(caller->Cert_0)
    }

    /// Whether `caller` may write to the host `host`: an administrator may write to any, a node
    /// to its own.
    pub open spec fn may_write_host(self, caller: CallerView, host: Seq<char>) -> bool {
        ||| !self.enforced
        ||| self.admin(caller)
        ||| caller == CallerView::Cert(host)
    }

    /// Whether `caller` may perform writes that no single host owns.
    pub open spec fn may_administer(self, caller: CallerView) -> bool {
        ||| !self.enforced
        ||| self.admin(caller)
    }
}

/// Whether `names` holds `name`.
pub fn has_name(names: &Vec<String>, name: &str) -> (r: bool)
    ensures
        r == views(names@).contains(name@),
{
    for i in 0..names.len()
        invariant
            forall|j: int| 0 <= j < i ==> #[trigger] views(names@)[j] != name@,
    {
        if same(names[i].as_str(), name) {
            assert(views(names@)[i as int] == name@);
            return true;
        }
    }
    false
}

impl Authz {
    /// A policy with `admins` allowed to do anything.
    pub fn new(admins: Vec<String>, enforced: bool) -> (r: Self)
        ensures
            r@ == (AuthzView { admins: name_set(views(admins@)), enforced }),
    {
        Authz { admins, enforced }
    }

    /// A policy that allows every call.
    pub fn disabled() -> (r: Self)
        ensures
            r@ == (AuthzView { admins: Set::empty(), enforced: false }),
    {
        let r = Authz { admins: Vec::new(), enforced: false };
        assert(r@.admins =~= Set::empty());
        r
    }

    /// Whether `caller` is an administrator.
    pub fn is_admin(&self, caller: &Caller) -> (r: bool)
        ensures
            r == self@.admin(caller@),
    {
        match caller {
            Caller::Cert(name) => has_name(&self.admins, name.as_str()),
            Caller::Anonymous => false,
        }
    }

    /// Whether `caller` may perform a write scoped to the host `host_id`.
    pub fn allow_host(&self, caller: &Caller, host_id: &str) -> (r: bool)
        ensures
            r == self@.may_write_host(caller@, host_id@),
    {
        if !self.enforced {
            return true;
        }
        match caller {
            Caller::Cert(name) => has_name(&self.admins, name.as_str()) || same(
                name.as_str(),
                host_id,
            ),
            Caller::Anonymous => false,
        }
    }

    /// Whether `caller` may perform a fleet-wide write.
    pub fn allow_admin(&self, caller: &Caller) -> (r: bool)
        ensures
            r == self@.may_administer(caller@),
    {
        if !self.enforced {
            return true;
        }
        self.is_admin(caller)
    }
}

// ---------------------------------------------------------------------------
// The name in a certificate
// ---------------------------------------------------------------------------

/// What `x509_parser` reads as the common names of a certificate: nothing where the bytes are no
/// DER certificate, else one entry for each common-name attribute of the subject, in order,
/// without a text where the attribute is no string that the crate reads.
pub uninterp spec fn certificate_names(der: Seq<u8>) -> Option<Seq<Option<Seq<char>>>>;

/// The views of optional texts.
pub open spec fn text_views(s: Seq<Option<String>>) -> Seq<Option<Seq<char>>> {
    Seq::new(s.len(), |i: int| opt_view(s[i]))
}

/// The view of what [`common_names`] returns.
pub open spec fn names_view(names: Option<Vec<Option<String>>>) -> Option<Seq<Option<Seq<char>>>> {
    match names {
        Some(v) => Some(text_views(v@)),
        None => None,
    }
}

/// Parses `der` with `x509_parser::parse_x509_certificate` and hands out the common names of the
/// subject (`X509Name::iter_common_name`), each read with `AttributeTypeAndValue::as_str`. The
/// result depends on the bytes alone; it is named and not described further, since that is the
/// grammar of certificates.
#[verifier::external_body]
fn common_names(der: &[u8]) -> (r: Option<Vec<Option<String>>>)
    ensures
        names_view(r) == certificate_names(der@),
{
    let (_, cert) = x509_parser::parse_x509_certificate(der).ok()?;
    let names = cert.subject().iter_common_name();
    Some(names.map(|name| name.as_str().ok().map(str::to_string)).collect())
}

/// The name that counts: the first common name, where it is a text.
pub open spec fn first_name(names: Option<Seq<Option<Seq<char>>>>) -> Option<Seq<char>> {
    match names {
        Some(s) => if s.len() > 0 {
            s[0]
        } else {
            None
        },
        None => None,
    }
}

/// Picks [`first_name`].
pub fn leaf_name(names: Option<Vec<Option<String>>>) -> (r: Option<String>)
    ensures
        opt_view(r) == first_name(names_view(names)),
{
    match names {
        Some(v) => {
            if v.len() == 0 {
                return None;
            }
            assert(text_views(v@)[0] == opt_view(v@[0]));
            match &v[0] {
                Some(name) => Some(name.clone()),
                None => None,
            }
        },
        None => None,
    }
}

/// The subject common name of a DER certificate.
pub fn common_name(der: &[u8]) -> (r: Option<String>)
    ensures
        opt_view(r) == first_name(certificate_names(der@)),
{
    leaf_name(common_names(der))
}

/// The name in the first of the peer's certificates, if there are any.
pub open spec fn name_of_peer(certs: Option<Seq<Seq<u8>>>) -> Option<Seq<char>> {
    match certs {
        Some(s) => if s.len() > 0 {
            first_name(certificate_names(s[0]))
        } else {
            None
        },
        None => None,
    }
}

/// The view of the peer's certificates.
pub open spec fn certs_view(certs: Option<Vec<Vec<u8>>>) -> Option<Seq<Seq<u8>>> {
    match certs {
        Some(v) => Some(views(v@)),
        None => None,
    }
}

/// The common name of the peer's leaf certificate, if the transport carried one.
pub fn peer_cn(certs: &Option<Vec<Vec<u8>>>) -> (r: Option<String>)
    ensures
        opt_view(r) == name_of_peer(certs_view(*certs)),
{
    match certs {
        Some(v) => {
            if v.len() == 0 {
                return None;
            }
            assert(views(v@)[0] == v@[0]@);
            common_name(v[0].as_slice())
        },
        None => None,
    }
}

/// Who presents the name `name`.
pub open spec fn known_as(name: Option<Seq<char>>) -> CallerView {
    match name {
        Some(n) => CallerView::Cert(n),
        None => CallerView::Anonymous,
    }
}

/// The caller that presented `name`.
pub fn caller_named(name: Option<String>) -> (r: Caller)
    ensures
        r@ == known_as(opt_view(name)),
{
    match name {
        Some(n) => Caller::Cert(n),
        None => Caller::Anonymous,
    }
}

/// The caller behind the peer's certificates: missing certificates, a leaf that is no certificate
/// and a leaf without a common name all give [`Caller::Anonymous`].
pub fn caller_of(certs: &Option<Vec<Vec<u8>>>) -> (r: Caller)
    ensures
        r@ == known_as(name_of_peer(certs_view(*certs))),
{
    caller_named(peer_cn(certs))
}

// ---------------------------------------------------------------------------
// Peers of the controller cluster
// ---------------------------------------------------------------------------

/// Whether the allowlist `allowed` admits a peer with the name `cn`.
pub open spec fn listed_peer(allowed: Set<Seq<char>>, cn: Option<Seq<char>>) -> bool {
    cn is Some && allowed.contains(cn->0)
}

/// Whether a peer's name is present and on the allowlist.
pub fn cn_permitted(allowed: &Vec<String>, cn: Option<&str>) -> (r: bool)
    ensures
        r == listed_peer(
            name_set(views(allowed@)),
            match cn {
                Some(n) => Some(n@),
                None => None,
            },
        ),
{
    match cn {
        Some(name) => has_name(allowed, name),
        None => false,
    }
}

/// Why a peer with the name `cn` is turned away.
pub open spec fn peer_denial(cn: Option<Seq<char>>) -> Seq<char> {
    match cn {
        Some(n) => "raft peer CN "@ + debug_text(n) + " is not an authorized controller"@,
        None => "raft peer presented no client certificate"@,
    }
}

/// Admits a peer with the name `cn`: any peer without an allowlist, else those on it.
pub fn authorize(allowed: &Option<Vec<String>>, cn: Option<&str>) -> (r: Result<(), String>)
    ensures
        ({
            let name = match cn {
                Some(n) => Some(n@),
                None => None,
            };
            match r {
                Ok(_) => match *allowed {
                    Some(v) => listed_peer(name_set(views(v@)), name),
                    None => true,
                },
                Err(e) => {
                    &&& *allowed matches Some(v) && !listed_peer(name_set(views(v@)), name)
                    &&& e@ == peer_denial(name)
                },
            }
        }),
{
    match allowed {
        None => Ok(()),
        Some(list) => {
            if cn_permitted(list, cn) {
                return Ok(());
            }
            match cn {
                Some(name) => {
                    let mut e = String::from_str("raft peer CN ");
                    e.append(debug_str(name).as_str());
                    e.append(" is not an authorized controller");
                    Err(e)
                },
                None => Err(String::from_str("raft peer presented no client certificate")),
            }
        },
    }
}

// ---------------------------------------------------------------------------
// Laws
// ---------------------------------------------------------------------------

/// A node that is no administrator may write to its own host and to no other, and may perform no
/// fleet-wide write.
pub proof fn node_is_confined(a: AuthzView, node: Seq<char>, host: Seq<char>)
    requires
        a.enforced,
        !a.admins.contains(node),
    ensures
        a.may_write_host(CallerView::Cert(node), host) == (node == host),
        !a.may_administer(CallerView::Cert(node)),
{
}

/// Under an enforced policy a caller without a name may write nothing.
pub proof fn anonymous_is_denied(a: AuthzView, host: Seq<char>)
    requires
        a.enforced,
    ensures
        !a.may_write_host(CallerView::Anonymous, host),
        !a.may_administer(CallerView::Anonymous),
{
}

/// A policy that is not enforced allows every call.
pub proof fn unenforced_allows_all(a: AuthzView, caller: CallerView, host: Seq<char>)
    requires
        !a.enforced,
    ensures
        a.may_write_host(caller, host),
        a.may_administer(caller),
{
}

/// Whoever may perform fleet-wide writes may write to every host.
pub proof fn administrator_may_write_any_host(a: AuthzView, caller: CallerView, host: Seq<char>)
    requires
        a.may_administer(caller),
    ensures
        a.may_write_host(caller, host),
{
}

/// A peer whose certificates give no name is turned away by every allowlist, and taken for
/// anonymous by the policy.
pub proof fn nameless_peer_is_nobody(certs: Option<Seq<Seq<u8>>>, allowed: Set<Seq<char>>)
    requires
        name_of_peer(certs) is None,
    ensures
        !listed_peer(allowed, name_of_peer(certs)),
        known_as(name_of_peer(certs)) == CallerView::Anonymous,
{
}

/// Who may write under an enforced policy: to a host exactly an administrator and the node of that
/// name, and fleet-wide exactly an administrator.
pub proof fn writers_are_known(a: AuthzView, caller: CallerView, host: Seq<char>)
    requires
        a.enforced,
    ensures
        a.may_write_host(caller, host) <==> (caller matches CallerView::Cert(n) && (n == host
            || a.admins.contains(n))),
        a.may_administer(caller) <==> (caller matches CallerView::Cert(n) && a.admins.contains(n)),
{
}

/// A peer is known by the first common name of its first certificate and by nothing else.
pub proof fn peer_is_known_by_its_leaf(certs: Seq<Seq<u8>>, names: Seq<Option<Seq<char>>>)
    requires
        certs.len() > 0,
        certificate_names(certs[0]) == Some(names),
        names.len() > 0,
    ensures
        name_of_peer(Some(certs)) == names[0],
        names[0] matches Some(n) ==> known_as(name_of_peer(Some(certs))) == CallerView::Cert(n),
{
}

/// A peer without certificates, or whose first certificate cannot be read or has no common name, has
/// no name.
pub proof fn peer_without_a_leaf_is_nameless(certs: Option<Seq<Seq<u8>>>)
    requires
        certs matches Some(s) ==> s.len() == 0 || (certificate_names(s[0]) matches Some(n) ==> n.len()
            == 0),
    ensures
        name_of_peer(certs) is None,
{
}

/// An allowlist admits exactly the names on it.
pub proof fn allowlist_admits_its_names(allowed: Seq<Seq<char>>, cn: Option<Seq<char>>)
    ensures
        listed_peer(name_set(allowed), cn) <==> (cn matches Some(n) && allowed.contains(n)),
{
}

/// A peer that is turned away is told by the name that it gave; one without a certificate is told
/// that instead, whatever is on the allowlist.
pub proof fn denial_names_the_peer(name: Seq<char>)
    ensures
        peer_denial(Some(name)) == "raft peer CN "@ + debug_text(name)
            + " is not an authorized controller"@,
        peer_denial(None) == "raft peer presented no client certificate"@,
{
}

} // verus!
