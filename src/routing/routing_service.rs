//! Route installation: the routes of the selected peers, and the verdict on
//! each insertion.

use vstd::prelude::*;

use crate::error::Routing;
use crate::model::{peers_view, Peer, PeerView};

verus! {

/// The operating system's error number for "File exists".
pub const EEXIST: i32 = 17;

/// What `s` denotes as an IPv4 prefix (`a.b.c.d/len`): the address and the
/// prefix length; `None` when `s` is no such literal.
pub uninterp spec fn ipv4_net_of(s: Seq<char>) -> Option<(Seq<u8>, u8)>;

/// Relies on `ipnet::Ipv4Net::from_str`: parses an IPv4 prefix literal;
/// the prefix length of a parsed prefix is at most 32.
#[verifier::external_body]
fn parse_ipv4_net(s: &str) -> (r: Option<([u8; 4], u8)>)
    ensures
        match r {
            Some((addr, len)) => ipv4_net_of(s@) == Some((addr@, len)) && len <= 32,
            None => ipv4_net_of(s@) is None,
        },
{
    s.parse::<ipnet::Ipv4Net>().ok().map(|n| (n.addr().octets(), n.prefix_len()))
}

/// Relies on `nix::errno::Errno::EEXIST`, which is libc's `EEXIST`: 17 on
/// Linux.
#[verifier::external_body]
fn errno_eexist() -> (r: i32)
    ensures
        r == EEXIST,
{
    nix::errno::Errno::EEXIST as i32
}

/// A request to route `destination/prefix_len` through one interface, which
/// is both the input and the output interface of the route.
#[derive(Debug, PartialEq, Eq)]
pub struct RouteRequest {
    pub input_interface: u32,
    pub output_interface: u32,
    pub destination: [u8; 4],
    pub prefix_len: u8,
}

/// The mathematical value of a [`RouteRequest`].
pub struct RouteView {
    pub input_interface: u32,
    pub output_interface: u32,
    pub destination: Seq<u8>,
    pub prefix_len: u8,
}

impl View for RouteRequest {
    type V = RouteView;

    open spec fn view(&self) -> RouteView {
        RouteView {
            input_interface: self.input_interface,
            output_interface: self.output_interface,
            destination: self.destination@,
            prefix_len: self.prefix_len,
        }
    }
}

pub open spec fn routes_view(v: Seq<RouteRequest>) -> Seq<RouteView> {
    v.map_values(|r: RouteRequest| r@)
}

/// Every allowed IP of every peer, peer by peer, in order.
pub open spec fn destinations(peers: Seq<PeerView>) -> Seq<Seq<char>>
    decreases peers.len(),
{
    if peers.len() == 0 {
        Seq::empty()
    } else {
        destinations(peers.drop_last()) + peers.last().allowed_ips
    }
}

/// The route to the prefix `d` through the interface `index`.
pub open spec fn route_to(index: u32, d: Seq<char>) -> RouteView {
    RouteView {
        input_interface: index,
        output_interface: index,
        destination: ipv4_net_of(d)->Some_0.0,
        prefix_len: ipv4_net_of(d)->Some_0.1,
    }
}

/// Whether every destination is an IPv4 prefix literal.
pub open spec fn all_ipv4_nets(ds: Seq<Seq<char>>) -> bool {
    forall|i: int| 0 <= i < ds.len() ==> (ipv4_net_of(#[trigger] ds[i]) is Some)
}

/// The routes that make every destination reachable through `index`.
pub open spec fn route_plan(index: u32, ds: Seq<Seq<char>>) -> Seq<RouteView> {
    ds.map_values(|d: Seq<char>| route_to(index, d))
}

/// Whether `s` is the first destination that is not an IPv4 prefix literal.
pub open spec fn first_invalid(ds: Seq<Seq<char>>, s: Seq<char>) -> bool {
    exists|k: int|
        0 <= k < ds.len() && ds[k] == s && ipv4_net_of(s) is None && all_ipv4_nets(
            #[trigger] ds.take(k),
        )
}

/// Whether a failed insertion only reports that the route exists already.
pub open spec fn already_exists(code: Option<i32>) -> bool {
    code == Some((-EEXIST) as i32)
}

/// A rejected netlink request: the error number it carried, if any (negative,
/// as netlink reports it), and the client's error.
#[derive(Debug)]
pub struct RouteFailure {
    pub code: Option<i32>,
    pub error: rtnetlink::Error,
}

/// The routes that make the allowed IPs of `peers` reachable through the
/// interface `interface_name`, from the answer to the lookup of that
/// interface (its index, when it exists).
///
/// A failed lookup is reported; a missing interface is
/// `NoSuchInterface(interface_name)`; the first allowed IP that is not an
/// IPv4 prefix is `InvalidDestination` naming it.
pub fn plan_routes(
    interface_name: &str,
    link: Result<Option<u32>, rtnetlink::Error>,
    peers: &Vec<Peer>,
) -> (r: Result<Vec<RouteRequest>, Routing>)
    ensures
        match link {
            Err(e) => r == Err::<Vec<RouteRequest>, Routing>(Routing::NetlinkError(e)),
            Ok(None) => r matches Err(Routing::NoSuchInterface(n)) && n@ == interface_name@,
            Ok(Some(index)) => {
                let ds = destinations(peers_view(peers@));
                if all_ipv4_nets(ds) {
                    r matches Ok(routes) && routes_view(routes@) == route_plan(index, ds)
                } else {
                    r matches Err(Routing::InvalidDestination(s)) && first_invalid(ds, s@)
                }
            },
        },
{
    let index: u32 = match link {
        Err(e) => {
            return Err(Routing::NetlinkError(e));
        },
        Ok(None) => {
            return Err(Routing::NoSuchInterface(interface_name.to_string()));
        },
        Ok(Some(index)) => index,
    };
    let ghost pv = peers_view(peers@);
    let mut routes: Vec<RouteRequest> = Vec::new();
    let mut i: usize = 0;
    while i < peers.len()
        invariant
            link == Ok::<Option<u32>, rtnetlink::Error>(Some(index)),
            pv == peers_view(peers@),
            i <= peers.len(),
            all_ipv4_nets(destinations(pv.take(i as int))),
            routes_view(routes@) == route_plan(index, destinations(pv.take(i as int))),
        decreases peers.len() - i,
    {
        let ips = &peers[i].allowed_ips;
        let ghost done = destinations(pv.take(i as int));
        proof {
            assert(pv.take(i + 1).drop_last() == pv.take(i as int));
            assert(destinations(pv.take(i + 1)) == done + pv[i as int].allowed_ips);
        }
        let mut j: usize = 0;
        while j < ips.len()
            invariant
                link == Ok::<Option<u32>, rtnetlink::Error>(Some(index)),
                pv == peers_view(peers@),
                i < peers.len(),
                destinations(pv.take(i + 1)) == done + pv[i as int].allowed_ips,
                ips == &peers@[i as int].allowed_ips,
                pv[i as int].allowed_ips.len() == ips.len(),
                j <= ips.len(),
                done == destinations(pv.take(i as int)),
                all_ipv4_nets(done + pv[i as int].allowed_ips.take(j as int)),
                routes_view(routes@) == route_plan(
                    index,
                    done + pv[i as int].allowed_ips.take(j as int),
                ),
            decreases ips.len() - j,
        {
            let ghost so_far = done + pv[i as int].allowed_ips.take(j as int);
            let ghost d = pv[i as int].allowed_ips[j as int];
            proof {
                assert(ips@[j as int]@ == d);
                assert(so_far.push(d) =~= done + pv[i as int].allowed_ips.take(j + 1));
            }
            match parse_ipv4_net(ips[j].as_str()) {
                None => {
                    proof {
                        let ds = destinations(pv);
                        lemma_destinations_prefix(pv, i + 1);
                        let b = destinations(pv.take(i + 1));
                        assert(b == done + pv[i as int].allowed_ips);
                        assert(ds.take(b.len() as int) == b);
                        assert(b.take(so_far.len() as int) =~= so_far);
                        assert(ds.take(so_far.len() as int) =~= b.take(so_far.len() as int));
                        assert(b[so_far.len() as int] == d);
                        assert(ds.take(b.len() as int)[so_far.len() as int] == d);
                        assert(ds[so_far.len() as int] == d);
                        assert(first_invalid(ds, d));
                        assert(!all_ipv4_nets(ds));
                    }
                    return Err(Routing::InvalidDestination(ips[j].clone()));
                },
                Some((destination, prefix_len)) => {
                    let ghost before = routes@;
                    routes.push(
                        RouteRequest {
                            input_interface: index,
                            output_interface: index,
                            destination,
                            prefix_len,
                        },
                    );
                    proof {
                        assert(routes_view(routes@) =~= routes_view(before).push(
                            route_to(index, d),
                        ));
                        assert(route_plan(index, so_far.push(d)) =~= route_plan(
                            index,
                            so_far,
                        ).push(route_to(index, d)));
                        assert forall|k: int| 0 <= k < so_far.len() + 1 implies (ipv4_net_of(
                            #[trigger] so_far.push(d)[k],
                        ) is Some) by {
                            if k < so_far.len() {
                                assert(so_far.push(d)[k] == so_far[k]);
                            }
                        }
                    }
                },
            }
            j = j + 1;
        }
        proof {
            assert(pv[i as int].allowed_ips.take(ips.len() as int) == pv[i as int].allowed_ips);
        }
        i = i + 1;
    }
    proof {
        assert(pv.take(peers.len() as int) == pv);
    }
    Ok(routes)
}

/// The destinations of a prefix of the peers are a prefix of all destinations.
proof fn lemma_destinations_prefix(peers: Seq<PeerView>, n: int)
    requires
        0 <= n <= peers.len(),
    ensures
        destinations(peers.take(n)).len() <= destinations(peers).len(),
        destinations(peers).take(destinations(peers.take(n)).len() as int) == destinations(
            peers.take(n),
        ),
    decreases peers.len() - n,
{
    if n < peers.len() {
        lemma_destinations_prefix(peers, n + 1);
        assert(peers.take(n + 1).drop_last() == peers.take(n));
        let a = destinations(peers.take(n));
        let b = destinations(peers.take(n + 1));
        assert(b == a + peers[n].allowed_ips);
        assert(b.take(a.len() as int) =~= a);
        assert(destinations(peers).take(a.len() as int) =~= destinations(peers).take(
            b.len() as int,
        ).take(a.len() as int));
    } else {
        assert(peers.take(n) == peers);
    }
}

/// The verdict on one route insertion: success, or a failure that only
/// reports an existing route, lets the pass go on; any other failure ends
/// it.
pub fn check_insertion(outcome: Result<(), RouteFailure>) -> (r: Result<(), Routing>)
    ensures
        match outcome {
            Ok(()) => r is Ok,
            Err(f) => if already_exists(f.code) {
                r is Ok
            } else {
                r == Err::<(), Routing>(Routing::NetlinkError(f.error))
            },
        },
{
    match outcome {
        Ok(()) => Ok(()),
        Err(f) => {
            let exists = match f.code {
                Some(code) => code == -errno_eexist(),
                None => false,
            };
            if exists {
                Ok(())
            } else {
                Err(Routing::NetlinkError(f.error))
            }
        },
    }
}

/// The kernel's answer to one route insertion into the table `t`: a route
/// already in `t` is refused with "File exists" (`Err` of the negative error
/// number) and leaves `t` as it is; any other route is added.
pub open spec fn kernel_insert(t: Set<RouteView>, route: RouteView) -> (Set<RouteView>, Result<
    (),
    i32,
>) {
    if t.contains(route) {
        (t, Err((-EEXIST) as i32))
    } else {
        (t.insert(route), Ok(()))
    }
}

/// One pass of route insertions against the table `t`, each answer judged as
/// [`check_insertion`] judges it: the table afterwards, and whether the pass
/// went through.
pub open spec fn insert_routes(t: Set<RouteView>, plan: Seq<RouteView>) -> (Set<RouteView>, bool)
    decreases plan.len(),
{
    if plan.len() == 0 {
        (t, true)
    } else {
        let (before, ok) = insert_routes(t, plan.drop_last());
        if !ok {
            (before, false)
        } else {
            let (after, answer) = kernel_insert(before, plan.last());
            match answer {
                Ok(()) => (after, true),
                Err(code) => (after, already_exists(Some(code))),
            }
        }
    }
}

proof fn lemma_insert_routes_union(t: Set<RouteView>, plan: Seq<RouteView>)
    ensures
        insert_routes(t, plan) == (t + plan.to_set(), true),
    decreases plan.len(),
{
    if plan.len() > 0 {
        lemma_insert_routes_union(t, plan.drop_last());
        let before = t + plan.drop_last().to_set();
        assert(plan.to_set() =~= plan.drop_last().to_set().insert(plan.last())) by {
            assert(plan == plan.drop_last().push(plan.last()));
            plan.drop_last().lemma_push_to_set_commute(plan.last());
        }
        if before.contains(plan.last()) {
            assert(before =~= t + plan.to_set());
        } else {
            assert(before.insert(plan.last()) =~= t + plan.to_set());
        }
    } else {
        assert(plan.to_set() =~= Set::empty());
        assert(t + plan.to_set() =~= t);
    }
}

proof fn lemma_insert_routes_idempotent(t: Set<RouteView>, plan: Seq<RouteView>)
    ensures
        insert_routes(insert_routes(t, plan).0, plan) == insert_routes(t, plan),
        insert_routes(t, plan).1,
{
    lemma_insert_routes_union(t, plan);
    lemma_insert_routes_union(t + plan.to_set(), plan);
    assert(t + plan.to_set() + plan.to_set() =~= t + plan.to_set());
}

/// Adding the routes of the same peers twice through the interface `index`:
/// both passes go through, the second because every refusal it meets only
/// reports an existing route, and the second adds no route to the table the
/// first left.
pub proof fn lemma_add_routes_idempotent(t: Set<RouteView>, index: u32, peers: Seq<PeerView>)
    requires
        all_ipv4_nets(destinations(peers)),
    ensures
        ({
            let plan = route_plan(index, destinations(peers));
            &&& insert_routes(t, plan).1
            &&& insert_routes(insert_routes(t, plan).0, plan) == insert_routes(t, plan)
        }),
{
    lemma_insert_routes_idempotent(t, route_plan(index, destinations(peers)));
}

} // verus!
