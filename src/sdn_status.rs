//! The status of SDN fabrics, from the routes FRR reports.

use vstd::prelude::*;
use vstd::string::StringExecFns;

use crate::tfa::str_equal;

verus! {

/// The state of a fabric interface.
#[derive(Clone, Copy, Debug, PartialEq, Eq, Structural)]
pub enum InterfaceState {
    Up,
    Down,
}

/// The routing protocol of a fabric.
#[derive(Clone, Copy, Debug, PartialEq, Eq, Structural)]
pub enum Protocol {
    Openfabric,
    Ospf,
}

/// Whether a fabric distributes any route (shown as `ok` and `not ok`).
#[derive(Clone, Copy, Debug, PartialEq, Eq, Structural)]
pub enum FabricStatus {
    IsOk,
    NotOk,
}

/// A route of a fabric and all its next hops.
pub struct RouteStatus {
    pub route: String,
    pub via: Vec<String>,
}

/// A next hop of a route as FRR reports it; the address written out.
pub struct Nexthop {
    pub ip: Option<String>,
    pub interface_name: Option<String>,
    pub unreachable: Option<bool>,
}

/// A route as FRR reports it.
pub struct Route {
    pub installed: Option<bool>,
    pub nexthops: Vec<Nexthop>,
}

/// Whether `name` is one of `names`.
pub open spec fn is_listed(names: Seq<String>, name: Seq<char>) -> bool {
    exists|i: int| 0 <= i < names.len() && (#[trigger] names[i])@ == name
}

/// Whether a next hop leaves through one of the interfaces `names`.
pub open spec fn via_listed(h: Nexthop, names: Seq<String>) -> bool {
    h.interface_name matches Some(n) && is_listed(names, n@)
}

/// Whether some next hop of `r` leaves through one of the interfaces `names`.
pub open spec fn route_uses(r: Route, names: Seq<String>) -> bool {
    exists|j: int| 0 <= j < r.nexthops@.len() && via_listed(#[trigger] r.nexthops@[j], names)
}

/// Whether some installed route leaves through one of the interfaces `names`.
pub open spec fn belongs_to_fabric(routes: Seq<Route>, names: Seq<String>) -> bool {
    exists|i: int|
        0 <= i < routes.len() && (#[trigger] routes[i]).installed == Some(true) && route_uses(
            routes[i],
            names,
        )
}

/// How a next hop is shown: its address, else its interface, else `unreachable` where it is
/// marked so; otherwise it is not shown.
pub open spec fn shown_via(h: Nexthop) -> Option<Seq<char>> {
    match h.ip {
        Some(ip) => Some(ip@),
        None => match h.interface_name {
            Some(n) => Some(n@),
            None => if h.unreachable == Some(true) {
                Some("unreachable"@)
            } else {
                None
            },
        },
    }
}

pub open spec fn shown_vias(hs: Seq<Nexthop>) -> Seq<Seq<char>>
    decreases hs.len(),
{
    if hs.len() == 0 {
        Seq::empty()
    } else {
        shown_vias(hs.drop_last()) + match shown_via(hs.last()) {
            Some(v) => seq![v],
            None => Seq::empty(),
        }
    }
}

/// The shown next hops of all routes, in order.
pub open spec fn routes_vias(routes: Seq<Route>) -> Seq<Seq<char>>
    decreases routes.len(),
{
    if routes.len() == 0 {
        Seq::empty()
    } else {
        routes_vias(routes.drop_last()) + shown_vias(routes.last().nexthops@)
    }
}

fn listed(names: &Vec<String>, name: &String) -> (r: bool)
    ensures
        r == is_listed(names@, name@),
{
    let mut i: usize = 0;
    while i < names.len()
        invariant
            i <= names@.len(),
            forall|j: int| 0 <= j < i ==> (#[trigger] names@[j])@ != name@,
        decreases names.len() - i,
    {
        if names[i] == *name {
            return true;
        }
        i = i + 1;
    }
    false
}

fn uses_listed(r: &Route, names: &Vec<String>) -> (b: bool)
    ensures
        b == route_uses(*r, names@),
{
    let mut j: usize = 0;
    while j < r.nexthops.len()
        invariant
            j <= r.nexthops@.len(),
            forall|k: int| 0 <= k < j ==> !via_listed(#[trigger] r.nexthops@[k], names@),
        decreases r.nexthops.len() - j,
    {
        if let Some(n) = &r.nexthops[j].interface_name {
            if listed(names, n) {
                return true;
            }
        }
        j = j + 1;
    }
    false
}

/// Whether a fabric, whose interfaces on this node are `interfaces`, distributes any route:
/// some next hop of some route leaves through one of them.
pub fn fabric_status(interfaces: &Vec<String>, routes: &Vec<Route>) -> (r: FabricStatus)
    ensures
        r == (if exists|i: int|
            0 <= i < routes@.len() && route_uses(#[trigger] routes@[i], interfaces@) {
            FabricStatus::IsOk
        } else {
            FabricStatus::NotOk
        }),
{
    let mut i: usize = 0;
    while i < routes.len()
        invariant
            i <= routes@.len(),
            forall|k: int| 0 <= k < i ==> !route_uses(#[trigger] routes@[k], interfaces@),
        decreases routes.len() - i,
    {
        if uses_listed(&routes[i], interfaces) {
            return FabricStatus::IsOk;
        }
        i = i + 1;
    }
    FabricStatus::NotOk
}

fn installed_route_uses(routes: &Vec<Route>, interfaces: &Vec<String>) -> (r: bool)
    ensures
        r == belongs_to_fabric(routes@, interfaces@),
{
    let mut i: usize = 0;
    while i < routes.len()
        invariant
            i <= routes@.len(),
            forall|k: int|
                0 <= k < i ==> !((#[trigger] routes@[k]).installed == Some(true) && route_uses(
                    routes@[k],
                    interfaces@,
                )),
        decreases routes.len() - i,
    {
        let installed = match routes[i].installed {
            Some(b) => b,
            None => false,
        };
        if installed && uses_listed(&routes[i], interfaces) {
            return true;
        }
        i = i + 1;
    }
    false
}

/// The status of the route `route_key` of a fabric whose interfaces are `interfaces`: `None`
/// unless an installed route leaves through one of them, else every shown next hop of all
/// routes of the key.
pub fn route_status(route_key: &str, routes: &Vec<Route>, interfaces: &Vec<String>) -> (r: Option<
    RouteStatus,
>)
    ensures
        match r {
            Some(st) => belongs_to_fabric(routes@, interfaces@) && st.route@ == route_key@
                && st.via@.map_values(|v: String| v@) == routes_vias(routes@),
            None => !belongs_to_fabric(routes@, interfaces@),
        },
{
    let belongs = installed_route_uses(routes, interfaces);
    if !belongs {
        return None;
    }
    let mut hops: Vec<String> = Vec::new();
    let mut i: usize = 0;
    while i < routes.len()
        invariant
            i <= routes@.len(),
            hops@.map_values(|v: String| v@) == routes_vias(routes@.subrange(0, i as int)),
        decreases routes.len() - i,
    {
        let ghost p = routes@.subrange(0, i + 1);
        assert(p.drop_last() =~= routes@.subrange(0, i as int));
        let hs = &routes[i].nexthops;
        let ghost before = hops@.map_values(|v: String| v@);
        let mut j: usize = 0;
        while j < hs.len()
            invariant
                j <= hs@.len(),
                hops@.map_values(|v: String| v@) == before + shown_vias(hs@.subrange(0, j as int)),
            decreases hs.len() - j,
        {
            let ghost q = hs@.subrange(0, j + 1);
            assert(q.drop_last() =~= hs@.subrange(0, j as int));
            let h = &hs[j];
            let shown: Option<String> = match &h.ip {
                Some(ip) => Some(ip.clone()),
                None => match &h.interface_name {
                    Some(n) => Some(n.clone()),
                    None => if h.unreachable == Some(true) {
                        Some("unreachable".to_owned())
                    } else {
                        None
                    },
                },
            };
            let ghost mid = hops@;
            if let Some(v) = shown {
                hops.push(v);
                assert(hops@.map_values(|v: String| v@) =~= mid.map_values(|v: String| v@) + seq![
                    shown_via(hs@[j as int])->Some_0,
                ]);
            }
            j = j + 1;
        }
        assert(hs@.subrange(0, j as int) =~= hs@);
        i = i + 1;
    }
    assert(routes@.subrange(0, i as int) =~= routes@);
    Some(RouteStatus { route: route_key.to_owned(), via: hops })
}

} // verus!
