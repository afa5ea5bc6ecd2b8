//! The fabric of a controller that runs by itself: the model that its file describes, with the
//! addresses that are given out.

use vstd::prelude::*;

use crate::addr::ipv4_of;
use crate::addr_laws::{cidr_v4_canonical, cidr_v6_canonical};
use crate::config::EncapName;
use crate::error::Error;
use crate::fabric_laws::remove_port_keeps_wf;
use crate::ipam::{AddressBook, AddressBookView};
use crate::lists::{first_index_properties, flat_contains};
use crate::orchestrator::{unless_id, with_id, TopologyView};
use crate::sorted::{map_views_insert, map_views_remove, TextKey};
use crate::store::{
    about_addresses, applies, apply, apply_keeps_networks_of_subnets, apply_keeps_wf,
    refused_request_changes_nothing, SubnetCidr, TopoRequest, TopoRequestView, TopoResponse,
    TopoResponseView,
};
use crate::topology::{
    balancers_resolve, build, built, created_in_block, names_port, Fabric, FabricView, TopologyFile,
    TopologyFileView,
};
use crate::topology_laws::{named_members, reload_drops_vanished_members, reload_gives_the_fabric};
use crate::topology_save::{to_file, written};

verus! {

/// A fabric with its address book.
pub struct LiveFabric {
    fabric: Fabric,
    addresses: AddressBook,
}

/// What a [`LiveFabric`] holds.
#[verifier::ext_equal]
pub struct LiveFabricView {
    pub fabric: FabricView,
    pub addresses: AddressBookView,
}

impl View for LiveFabric {
    type V = LiveFabricView;

    closed spec fn view(&self) -> LiveFabricView {
        LiveFabricView { fabric: self.fabric@, addresses: self.addresses@ }
    }
}

/// The SRv6 locators after a request. A host that is registered through a request has none.
pub open spec fn locators_after<L>(
    locators: Map<Seq<char>, L>,
    req: TopoRequestView,
    out: TopoResponseView,
) -> Map<Seq<char>, L> {
    match req {
        TopoRequestView::AddHost(s) => if out.ok {
            locators.remove(s.id)
        } else {
            locators
        },
        TopoRequestView::RemoveHost { id } => if out.ok {
            locators.remove(id)
        } else {
            locators
        },
        _ => locators,
    }
}

/// What a request does to the subnets.
proof fn subnets_after(
    t: TopologyView,
    b: AddressBookView,
    req: TopoRequestView,
    after: TopologyView,
    after_b: AddressBookView,
    out: TopoResponseView,
)
    requires
        applies(t, b, req, after, after_b, out),
    ensures
        match req {
            TopoRequestView::AddSubnet(s) => if out.ok {
                after_b.subnets.dom().contains(s.id) && after_b.subnets == b.subnets.insert(
                    s.id,
                    after_b.subnets[s.id],
                )
            } else {
                after_b.subnets == b.subnets
            },
            TopoRequestView::RemoveSubnet { id } => if out.ok {
                after_b.subnets == b.subnets.remove(id)
            } else {
                after_b.subnets == b.subnets
            },
            _ => after_b.subnets == b.subnets,
        },
{
    if let TopoRequestView::RemoveSubnet { id } = req {
        if !b.subnets.dom().contains(id) {
            assert(b.subnets.remove(id) =~= b.subnets);
        }
    }
}

impl LiveFabricView {
    /// Whether applying a request leads to `after` and to `out`. Routing contexts and load
    /// balancers stay as they are.
    pub open spec fn applies(
        self,
        req: TopoRequestView,
        after: LiveFabricView,
        out: TopoResponseView,
    ) -> bool {
        &&& applies(
            self.fabric.topo,
            self.addresses,
            req,
            after.fabric.topo,
            after.addresses,
            out,
        )
        &&& after.fabric == FabricView {
            topo: after.fabric.topo,
            locators: locators_after(self.fabric.locators, req, out),
            subnets: after.addresses.subnets,
            ..self.fabric
        }
    }
}

impl LiveFabric {
    /// Both parts are stored consistently, are well formed, and have the same subnets.
    pub closed spec fn inv(&self) -> bool {
        &&& self.fabric.inv()
        &&& self.fabric@.tables_match()
        &&& self.addresses.inv()
        &&& self.addresses@.wf()
        &&& self.fabric@.subnets == self.addresses@.subnets
    }

    /// The fabric.
    pub fn fabric(&self) -> (r: &Fabric)
        requires
            self.inv(),
        ensures
            r.inv(),
            r@ == self@.fabric,
            r@.tables_match(),
    {
        &self.fabric
    }

    /// The address book.
    pub fn addresses(&self) -> (r: &AddressBook)
        requires
            self.inv(),
        ensures
            r.inv(),
            r@ == self@.addresses,
            r@.wf(),
    {
        &self.addresses
    }

    /// An empty fabric.
    pub fn new() -> (r: LiveFabric)
        ensures
            r.inv(),
            r@ == (LiveFabricView {
                fabric: FabricView::empty(),
                addresses: AddressBookView::empty(),
            }),
            r@.fabric.wf(),
            r@.fabric.addressed(),
    {
        LiveFabric { fabric: Fabric::new(), addresses: AddressBook::new() }
    }

    /// The fabric that a file describes, with no address given out.
    pub fn load(tf: &TopologyFile) -> (r: Result<LiveFabric, Error>)
        ensures
            match r {
                Ok(f) => f.inv() && built(tf@) == Ok::<FabricView, Seq<char>>(f@.fabric)
                    && f@.fabric.wf() && f@.fabric.addressed() && f@.addresses == (AddressBookView {
                    subnets: f@.fabric.subnets,
                    ..AddressBookView::empty()
                }),
                Err(e) => built(tf@) == Err::<FabricView, Seq<char>>(e@),
            },
    {
        match build(tf) {
            Ok(fabric) => {
                assert forall|k: Seq<char>| #[trigger]
                    fabric.subnets@.dom().contains(k) implies fabric.subnets@[k]@.id == k by {
                    assert(fabric@.subnets.dom().contains(k));
                }
                let addresses = AddressBook::with_subnets(&fabric.subnets);
                Ok(LiveFabric { fabric, addresses })
            },
            Err(e) => Err(e),
        }
    }

    /// Writes the fabric as a file. The file does not tell which addresses are given out.
    pub fn save(&self) -> (r: TopologyFile)
        requires
            self.inv(),
        ensures
            written(r@, self@.fabric),
    {
        to_file(&self.fabric)
    }

    /// Takes up in the fabric what a request did outside its tables.
    fn follow(&mut self, req: &TopoRequest, out: &TopoResponse)
        requires
            old(self).fabric.inv(),
            old(self).addresses.inv(),
            match req@ {
                TopoRequestView::AddSubnet(s) => out@.ok
                    ==> old(self).addresses@.subnets.dom().contains(s.id),
                _ => true,
            },
        ensures
            final(self).fabric.inv(),
            final(self).addresses == old(self).addresses,
            final(self).fabric@ == (FabricView {
                locators: locators_after(old(self).fabric@.locators, req@, out@),
                subnets: match req@ {
                    TopoRequestView::AddSubnet(s) if out@.ok => old(self).fabric@.subnets.insert(
                        s.id,
                        old(self).addresses@.subnets[s.id],
                    ),
                    TopoRequestView::RemoveSubnet { id } if out@.ok => old(
                        self,
                    ).fabric@.subnets.remove(id),
                    _ => old(self).fabric@.subnets,
                },
                ..old(self).fabric@
            }),
    {
        if !out.ok {
            return;
        }
        match req {
            TopoRequest::AddHost(s) => {
                let key = TextKey { text: s.id.clone() };
                let had = self.fabric.locators.remove(&key);
            },
            TopoRequest::RemoveHost { id } => {
                let key = TextKey { text: id.clone() };
                let had = self.fabric.locators.remove(&key);
            },
            TopoRequest::AddSubnet(s) => {
                let subnet = self.addresses.subnet(s.id.as_str()).unwrap().clone();
                let key = TextKey { text: s.id.clone() };
                proof {
                    map_views_insert(self.fabric.subnets@, key@, subnet);
                }
                self.fabric.subnets.insert(key, subnet);
            },
            TopoRequest::RemoveSubnet { id } => {
                let key = TextKey { text: id.clone() };
                proof {
                    map_views_remove(self.fabric.subnets@, key@);
                }
                let had = self.fabric.subnets.remove(&key);
            },
            _ => {},
        }
    }

    /// Applies a request to the tables.
    fn run(&mut self, req: &TopoRequest) -> (r: TopoResponse)
        requires
            old(self).inv(),
        ensures
            final(self).fabric.inv(),
            final(self).addresses.inv(),
            final(self).fabric@ == (FabricView {
                topo: final(self).fabric@.topo,
                ..old(self).fabric@
            }),
            applies(
                old(self)@.fabric.topo,
                old(self)@.addresses,
                req@,
                final(self)@.fabric.topo,
                final(self)@.addresses,
                r@,
            ),
    {
        apply(&mut self.fabric.topo, &mut self.addresses, req)
    }

    /// Applies a request. What can be written and loaded back stays so, unless something is taken away
    /// that the fabric refers to.
    #[verifier::rlimit(60)]
    #[verifier::spinoff_prover]
    pub fn apply(&mut self, req: &TopoRequest) -> (r: TopoResponse)
        requires
            old(self).inv(),
        ensures
            final(self).inv(),
            old(self)@.applies(req@, final(self)@, r@),
            old(self)@.fabric.wf() && old(self)@.fabric.addressed() && !(r@.ok && leaves_reference(
                old(self)@.fabric,
                req@,
            )) ==> final(self)@.fabric.wf() && final(self)@.fabric.addressed(),
    {
        let ghost before = self@;
        let r = self.run(req);
        proof {
            let (t, b) = (before.fabric.topo, before.addresses);
            let (after, after_b) = (self.fabric@.topo, self.addresses@);
            subnets_after(t, b, req@, after, after_b, r@);
            apply_keeps_wf(t, b, req@, after, after_b, r@);
        }
        self.follow(req, &r);
        proof {
            if before.fabric.wf() && before.fabric.addressed() && !(r@.ok && leaves_reference(
                before.fabric,
                req@,
            )) {
                request_keeps_the_fabric(before, req@, self@, r@);
            }
        }
        r
    }

}

// ---------------------------------------------------------------------------
// Laws
// ---------------------------------------------------------------------------

/// Whether a request takes away what the fabric still refers to: a network that a routing context
/// routes, or a port that a load balancer has as a member.
pub open spec fn leaves_reference(f: FabricView, req: TopoRequestView) -> bool {
    match req {
        TopoRequestView::RemoveNetwork { vni } => exists|v: u32| #[trigger]
            f.ip_vrfs.dom().contains(v) && f.ip_vrfs[v].networks.contains(vni),
        TopoRequestView::RemovePort { id } => exists|k: Seq<char>, i: int|
            f.load_balancers.dom().contains(k) && 0 <= i < f.load_balancers[k].members.len()
                && (#[trigger] f.load_balancers[k].members[i]).port_id == id,
        _ => false,
    }
}

/// The ports keep their ids and addresses, and further ones have addresses of their networks' blocks.
proof fn ports_keep(f: FabricView, g: FabricView)
    requires
        f.wf(),
        f.addressed(),
        g.topo.wf(),
        g == (FabricView { topo: g.topo, ..f }),
        g.topo.hosts == f.topo.hosts,
        g.topo.networks == f.topo.networks,
        f.topo.ports.len() <= g.topo.ports.len(),
        forall|i: int|
            0 <= i < f.topo.ports.len() ==> {
                let p = #[trigger] g.topo.ports[i];
                p.id == f.topo.ports[i].id && p.vni == f.topo.ports[i].vni && p.ip
                    == f.topo.ports[i].ip
            },
        forall|i: int|
            f.topo.ports.len() <= i < g.topo.ports.len() ==> {
                let p = #[trigger] g.topo.ports[i];
                g.topo.networks[p.vni].subnet.contains(p.ip)
            },
    ensures
        g.wf(),
        g.addressed(),
{
    balancers_resolve(f, g);
    assert forall|v: u32| #[trigger] g.ip_vrfs.dom().contains(v) implies g.hosts_all(
        g.ip_vrfs[v].networks,
    ) by {
        assert(f.hosts_all(f.ip_vrfs[v].networks));
    }
    assert forall|i: int| 0 <= i < g.topo.ports.len() implies {
        let p = #[trigger] g.topo.ports[i];
        g.topo.networks[p.vni].subnet.contains(p.ip)
    } by {
        if i < f.topo.ports.len() {
            assert(f.topo.networks[f.topo.ports[i].vni].subnet.contains(f.topo.ports[i].ip));
        }
    }
}

/// Removing a port, with the members of load balancers that name it.
proof fn port_removal_prunes(f: FabricView, id: Seq<char>)
    requires
        f.wf(),
        f.addressed(),
    ensures
        (FabricView { topo: f.topo.remove_port(id), ..f }).pruned().wf(),
        (FabricView { topo: f.topo.remove_port(id), ..f }).addressed(),
{
    let g = FabricView { topo: f.topo.remove_port(id), ..f };
    let h = g.pruned();
    let w = unless_id(id);
    remove_port_keeps_wf(f.topo, id);
    assert forall|v: u32| #[trigger] h.ip_vrfs.dom().contains(v) implies h.hosts_all(
        h.ip_vrfs[v].networks,
    ) by {
        assert(f.hosts_all(f.ip_vrfs[v].networks));
    }
    assert forall|k: Seq<char>| #[trigger] h.load_balancers.dom().contains(k) implies
        h.load_balancers[k].id == k && h.resolves_all(h.load_balancers[k].members) by {
        assert(f.load_balancers.dom().contains(k));
        named_members(g.topo.ports, g.load_balancers[k].members);
    }
    assert forall|i: int| 0 <= i < g.topo.ports.len() implies {
        let p = #[trigger] g.topo.ports[i];
        g.topo.networks[p.vni].subnet.contains(p.ip)
    } by {
        let p = g.topo.ports[i];
        flat_contains(f.topo.ports, w, p);
        let j = choose|j: int| 0 <= j < f.topo.ports.len() && w(#[trigger] f.topo.ports[j]).contains(p);
        assert(f.topo.ports[j] == p);
    }
}

/// Removing a port that no load balancer has as a member.
proof fn port_removal_keeps(f: FabricView, id: Seq<char>)
    requires
        f.wf(),
        f.addressed(),
        !leaves_reference(f, TopoRequestView::RemovePort { id }),
    ensures
        (FabricView { topo: f.topo.remove_port(id), ..f }).wf(),
        (FabricView { topo: f.topo.remove_port(id), ..f }).addressed(),
{
    let g = FabricView { topo: f.topo.remove_port(id), ..f };
    let w = unless_id(id);
    port_removal_prunes(f, id);
    assert forall|v: u32| #[trigger] g.ip_vrfs.dom().contains(v) implies g.hosts_all(
        g.ip_vrfs[v].networks,
    ) by {
        assert(f.hosts_all(f.ip_vrfs[v].networks));
    }
    assert forall|k: Seq<char>| #[trigger] g.load_balancers.dom().contains(k) implies
        g.resolves_all(g.load_balancers[k].members) by {
        let ms = g.load_balancers[k].members;
        assert(f.resolves_all(ms));
        assert forall|i: int| 0 <= i < ms.len() implies names_port(
            g.topo.ports,
            (#[trigger] ms[i]).port_id,
        ) by {
            assert(f.load_balancers[k].members[i].port_id != id);
            assert(names_port(f.topo.ports, ms[i].port_id));
            let j = choose|j: int|
                0 <= j < f.topo.ports.len() && (#[trigger] f.topo.ports[j]).id == ms[i].port_id;
            let p = f.topo.ports[j];
            assert(w(f.topo.ports[j])[0] == p);
            assert(w(f.topo.ports[j]).contains(p));
            flat_contains(f.topo.ports, w, p);
            assert(g.topo.ports.contains(p));
            let n = choose|n: int| 0 <= n < g.topo.ports.len() && g.topo.ports[n] == p;
            assert(g.topo.ports[n].id == ms[i].port_id);
        }
    }
}

/// Adding a network, or removing one that nothing refers to.
proof fn networks_keep(f: FabricView, g: FabricView)
    requires
        f.wf(),
        f.addressed(),
        g.topo.wf(),
        g == (FabricView { topo: g.topo, ..f }),
        g.topo == (TopologyView { networks: g.topo.networks, ..f.topo }),
        forall|v: u32| #[trigger]
            g.topo.networks.dom().contains(v) ==> g.topo.networks[v].subnet.canonical() && (
            f.topo.networks.dom().contains(v) ==> g.topo.networks[v] == f.topo.networks[v]),
        forall|k: Seq<char>| #[trigger]
            f.subnets.dom().contains(k) ==> g.topo.networks.dom().contains(f.subnets[k].vni),
        forall|v: u32, i: int|
            f.ip_vrfs.dom().contains(v) && 0 <= i < f.ip_vrfs[v].networks.len()
                ==> g.topo.networks.dom().contains(#[trigger] f.ip_vrfs[v].networks[i]),
    ensures
        g.wf(),
        g.addressed(),
{
    balancers_resolve(f, g);
    assert forall|i: int| 0 <= i < g.topo.ports.len() implies {
        let p = #[trigger] g.topo.ports[i];
        g.topo.networks[p.vni].subnet.contains(p.ip)
    } by {
        let p = f.topo.ports[i];
        assert(f.topo.networks[p.vni].subnet.contains(p.ip));
        assert(f.topo.networks.dom().contains(p.vni));
        assert(g.topo.networks.dom().contains(g.topo.ports[i].vni));
    }
}

/// Adding a host without a locator, or removing one, with its locator.
proof fn hosts_keep(f: FabricView, g: FabricView, id: Seq<char>)
    requires
        f.wf(),
        f.addressed(),
        g.topo.wf(),
        g == (FabricView { topo: g.topo, locators: f.locators.remove(id), ..f }),
        g.topo == (TopologyView { hosts: g.topo.hosts, ..f.topo }),
        forall|k: Seq<char>|
            k != id ==> (#[trigger] g.topo.hosts.dom().contains(k) <==> f.topo.hosts.dom().contains(
                k,
            )) && (f.topo.hosts.dom().contains(k) ==> g.topo.hosts[k] == f.topo.hosts[k]),
        g.topo.hosts.dom().contains(id) ==> g.topo.hosts[id].encap != EncapName::Srv6,
    ensures
        g.wf(),
        g.addressed(),
{
    balancers_resolve(f, g);
    assert forall|v: u32| #[trigger] g.ip_vrfs.dom().contains(v) implies g.hosts_all(
        g.ip_vrfs[v].networks,
    ) by {
        assert(f.hosts_all(f.ip_vrfs[v].networks));
    }
    assert forall|k: Seq<char>| #[trigger]
        g.locators.dom().contains(k) <==> g.topo.hosts.dom().contains(k) && g.topo.hosts[k].encap
            == EncapName::Srv6 by {
        assert(f.locators.dom().contains(k) <==> f.topo.hosts.dom().contains(k)
            && f.topo.hosts[k].encap == EncapName::Srv6);
        if k != id {
            assert(g.topo.hosts.dom().contains(k) <==> f.topo.hosts.dom().contains(k));
        }
    }
    assert forall|i: int| 0 <= i < g.topo.ports.len() implies {
        let p = #[trigger] g.topo.ports[i];
        g.topo.networks[p.vni].subnet.contains(p.ip)
    } by {
        assert(f.topo.networks[f.topo.ports[i].vni].subnet.contains(f.topo.ports[i].ip));
    }
}

/// Other subnets, each in a network of the fabric.
proof fn subnets_keep(f: FabricView, g: FabricView)
    requires
        f.wf(),
        f.addressed(),
        g == (FabricView { subnets: g.subnets, ..f }),
        forall|k: Seq<char>| #[trigger]
            g.subnets.dom().contains(k) ==> g.subnets[k].id == k && f.topo.networks.dom().contains(
                g.subnets[k].vni,
            ) && match g.subnets[k].cidr {
                SubnetCidr::V4(c) => c.canonical(),
                SubnetCidr::V6(c) => c.canonical(),
            },
    ensures
        g.wf(),
        g.addressed(),
{
    balancers_resolve(f, g);
    assert forall|v: u32| #[trigger] g.ip_vrfs.dom().contains(v) implies g.hosts_all(
        g.ip_vrfs[v].networks,
    ) by {
        assert(f.hosts_all(f.ip_vrfs[v].networks));
    }
    assert forall|i: int| 0 <= i < g.topo.ports.len() implies {
        let p = #[trigger] g.topo.ports[i];
        g.topo.networks[p.vni].subnet.contains(p.ip)
    } by {
        assert(f.topo.networks[f.topo.ports[i].vni].subnet.contains(f.topo.ports[i].ip));
    }
}

/// A request about subnets or addresses keeps the fabric well formed.
proof fn address_request_keeps(
    f: LiveFabricView,
    req: TopoRequestView,
    g: LiveFabricView,
    out: TopoResponseView,
)
    requires
        f.fabric.wf(),
        f.fabric.addressed(),
        f.addresses.wf(),
        f.fabric.subnets == f.addresses.subnets,
        f.applies(req, g, out),
        about_addresses(req),
    ensures
        g.fabric.wf(),
        g.fabric.addressed(),
{
    let (t, b) = (f.fabric.topo, f.addresses);
    subnets_after(t, b, req, g.fabric.topo, g.addresses, out);
    apply_keeps_wf(t, b, req, g.fabric.topo, g.addresses, out);
    if let TopoRequestView::AddSubnet(s) = req {
        cidr_v4_canonical(s.cidr);
        cidr_v6_canonical(s.cidr);
    }
    assert forall|k: Seq<char>| #[trigger] g.fabric.subnets.dom().contains(k) implies {
        let s = g.fabric.subnets[k];
        &&& s.id == k
        &&& t.networks.dom().contains(s.vni)
        &&& match s.cidr {
            SubnetCidr::V4(c) => c.canonical(),
            SubnetCidr::V6(c) => c.canonical(),
        }
    } by {
        assert(f.fabric.subnets.dom().contains(k) ==> f.fabric.subnets[k].id == k);
    }
    subnets_keep(f.fabric, g.fabric);
}

/// A request about hosts or networks keeps the fabric well formed.
proof fn site_request_keeps(
    f: LiveFabricView,
    req: TopoRequestView,
    g: LiveFabricView,
    out: TopoResponseView,
)
    requires
        f.fabric.wf(),
        f.fabric.addressed(),
        f.addresses.wf(),
        f.fabric.subnets == f.addresses.subnets,
        f.applies(req, g, out),
        out.ok,
        !leaves_reference(f.fabric, req),
        req is AddHost || req is RemoveHost || req is AddNetwork || req is RemoveNetwork,
    ensures
        g.fabric.wf(),
        g.fabric.addressed(),
{
    let (t, b) = (f.fabric.topo, f.addresses);
    apply_keeps_wf(t, b, req, g.fabric.topo, g.addresses, out);
    match req {
        TopoRequestView::AddHost(s) => {
            hosts_keep(f.fabric, g.fabric, s.id);
        },
        TopoRequestView::RemoveHost { id } => {
            hosts_keep(f.fabric, g.fabric, id);
        },
        TopoRequestView::AddNetwork(s) => {
            cidr_v4_canonical(s.subnet);
            assert forall|v: u32, i: int|
                f.fabric.ip_vrfs.dom().contains(v) && 0 <= i
                    < f.fabric.ip_vrfs[v].networks.len() implies g.fabric.topo.networks.dom().contains(
                #[trigger] f.fabric.ip_vrfs[v].networks[i],
            ) by {
                assert(f.fabric.hosts_all(f.fabric.ip_vrfs[v].networks));
            }
            networks_keep(f.fabric, g.fabric);
        },
        TopoRequestView::RemoveNetwork { vni } => {
            apply_keeps_networks_of_subnets(t, b, req, g.fabric.topo, g.addresses, out);
            assert forall|v: u32, i: int|
                f.fabric.ip_vrfs.dom().contains(v) && 0 <= i
                    < f.fabric.ip_vrfs[v].networks.len() implies g.fabric.topo.networks.dom().contains(
                #[trigger] f.fabric.ip_vrfs[v].networks[i],
            ) by {
                assert(f.fabric.hosts_all(f.fabric.ip_vrfs[v].networks));
                assert(f.fabric.ip_vrfs[v].networks.contains(f.fabric.ip_vrfs[v].networks[i]));
            }
            networks_keep(f.fabric, g.fabric);
        },
        _ => {},
    }
}

/// A request about ports or groups keeps the fabric well formed.
proof fn port_request_keeps(
    f: LiveFabricView,
    req: TopoRequestView,
    g: LiveFabricView,
    out: TopoResponseView,
)
    requires
        f.fabric.wf(),
        f.fabric.addressed(),
        f.addresses.wf(),
        f.fabric.subnets == f.addresses.subnets,
        f.applies(req, g, out),
        out.ok,
        !leaves_reference(f.fabric, req),
        !about_addresses(req),
        !(req is AddHost || req is RemoveHost || req is AddNetwork || req is RemoveNetwork),
    ensures
        g.fabric.wf(),
        g.fabric.addressed(),
{
    let (t, b) = (f.fabric.topo, f.addresses);
    apply_keeps_wf(t, b, req, g.fabric.topo, g.addresses, out);
    match req {
        TopoRequestView::RemovePort { id } => {
            port_removal_keeps(f.fabric, id);
        },
        TopoRequestView::CreatePort { vni, host, tap, ip, policy } => {
            let requested = match ip {
                None => None,
                Some(s) => ipv4_of(s),
            };
            created_in_block(f.fabric, vni, host, tap, requested, policy, None);
            ports_keep(f.fabric, g.fabric);
        },
        TopoRequestView::MigratePort { id, .. } => {
            first_index_properties(t.ports, with_id(id));
            ports_keep(f.fabric, g.fabric);
        },
        TopoRequestView::SetPortSecurityGroup { port_id, .. } => {
            first_index_properties(t.ports, with_id(port_id));
            ports_keep(f.fabric, g.fabric);
        },
        _ => {
            ports_keep(f.fabric, g.fabric);
        },
    }
}

/// A request keeps the fabric well formed and its addresses in their blocks, unless it takes away
/// what a routing context or a load balancer refers to.
pub proof fn request_keeps_the_fabric(
    f: LiveFabricView,
    req: TopoRequestView,
    g: LiveFabricView,
    out: TopoResponseView,
)
    requires
        f.fabric.wf(),
        f.fabric.addressed(),
        f.addresses.wf(),
        f.fabric.subnets == f.addresses.subnets,
        f.applies(req, g, out),
        out.ok ==> !leaves_reference(f.fabric, req),
    ensures
        g.fabric.wf(),
        g.fabric.addressed(),
        g.addresses.wf(),
        g.fabric.subnets == g.addresses.subnets,
{
    let (t, b) = (f.fabric.topo, f.addresses);
    apply_keeps_wf(t, b, req, g.fabric.topo, g.addresses, out);
    if !out.ok {
        refused_request_changes_nothing(t, b, req, g.fabric.topo, g.addresses, out);
        assert(g.fabric == f.fabric);
    } else if about_addresses(req) {
        address_request_keeps(f, req, g, out);
    } else if req is AddHost || req is RemoveHost || req is AddNetwork || req is RemoveNetwork {
        site_request_keeps(f, req, g, out);
    } else {
        port_request_keeps(f, req, g, out);
    }
}

/// What a request changed survives a restart: the file that the fabric is written to afterwards loads
/// back to this fabric.
pub proof fn change_survives_restart(
    f: LiveFabricView,
    req: TopoRequestView,
    g: LiveFabricView,
    out: TopoResponseView,
    tf: TopologyFileView,
)
    requires
        f.fabric.wf(),
        f.fabric.addressed(),
        f.addresses.wf(),
        f.fabric.subnets == f.addresses.subnets,
        f.applies(req, g, out),
        out.ok ==> !leaves_reference(f.fabric, req),
        written(tf, g.fabric),
    ensures
        built(tf) == Ok::<FabricView, Seq<char>>(g.fabric),
{
    request_keeps_the_fabric(f, req, g, out);
    reload_gives_the_fabric(tf, g.fabric);
}

/// The removal of a port survives a restart too: the file loads back to the fabric, whose load
/// balancers have lost the members that named the port.
pub proof fn port_removal_survives_restart(
    f: LiveFabricView,
    id: Seq<char>,
    g: LiveFabricView,
    out: TopoResponseView,
    tf: TopologyFileView,
)
    requires
        f.fabric.wf(),
        f.fabric.addressed(),
        f.fabric.subnets == f.addresses.subnets,
        f.applies(TopoRequestView::RemovePort { id }, g, out),
        written(tf, g.fabric),
    ensures
        built(tf) == Ok::<FabricView, Seq<char>>(g.fabric.pruned()),
{
    port_removal_prunes(f.fabric, id);
    assert(g.fabric == FabricView { topo: f.fabric.topo.remove_port(id), ..f.fabric });
    reload_drops_vanished_members(tf, g.fabric);
}

/// A host that is registered through a request, or retired, has no locator afterwards; no other
/// request, and no refused one, touches any locator.
pub proof fn requests_leave_no_locator<L>(
    locators: Map<Seq<char>, L>,
    req: TopoRequestView,
    out: TopoResponseView,
    id: Seq<char>,
)
    ensures
        ({
            let now = locators_after(locators, req, out);
            let gone = out.ok && match req {
                TopoRequestView::AddHost(s) => s.id == id,
                TopoRequestView::RemoveHost { id: x } => x == id,
                _ => false,
            };
            &&& now.dom().contains(id) <==> locators.dom().contains(id) && !gone
            &&& now.dom().contains(id) ==> now[id] == locators[id]
        }),
{
}

/// A request leaves the routing contexts and the load balancers alone, and the fabric has the subnets
/// of the address book.
pub proof fn requests_leave_tenants_alone(
    f: LiveFabricView,
    req: TopoRequestView,
    g: LiveFabricView,
    out: TopoResponseView,
)
    requires
        f.applies(req, g, out),
    ensures
        g.fabric.ip_vrfs == f.fabric.ip_vrfs,
        g.fabric.load_balancers == f.fabric.load_balancers,
        g.fabric.subnets == g.addresses.subnets,
{
}

} // verus!
