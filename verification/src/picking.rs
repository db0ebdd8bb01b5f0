use bevy::platform::collections::HashSet;
use bevy::platform::hash::FixedHasher;
use vstd::prelude::*;

verus! {

#[verifier::external_type_specification]
#[verifier::external_body]
pub struct ExFixedHasher(FixedHasher);

#[verifier::external_type_specification]
#[verifier::external_body]
#[verifier::reject_recursive_types(T)]
#[verifier::reject_recursive_types(S)]
pub struct ExHashSet<T, S>(HashSet<T, S>);

/// The entities (by their bits) that a set of bevy's platform collections holds.
pub uninterp spec fn entity_set_contents(set: HashSet<u64>) -> Set<u64>;

/// `HashSet::from_iter` of bevy's platform collections: a set holding exactly the given
/// entities.
#[verifier::external_body]
fn entity_set_from(entities: &Vec<u64>) -> (set: HashSet<u64>)
    ensures
        entity_set_contents(set) == entities@.to_set(),
{
    HashSet::from_iter(entities.iter().copied())
}

/// `HashSet::remove` of bevy's platform collections: the entity is no longer held, every
/// other one stays; the result tells whether it was held.
#[verifier::external_body]
fn entity_set_remove(set: &mut HashSet<u64>, entity: u64) -> (removed: bool)
    ensures
        entity_set_contents(*final(set)) == entity_set_contents(*old(set)).remove(entity),
        removed == entity_set_contents(*old(set)).contains(entity),
{
    set.remove(&entity)
}

/// `HashSet::contains` of bevy's platform collections: whether the entity is held.
#[verifier::external_body]
fn entity_set_contains(set: &HashSet<u64>, entity: u64) -> (found: bool)
    ensures
        found == entity_set_contents(*set).contains(entity),
{
    set.contains(&entity)
}

/// How a pointer input reaches a portal's pointer.
#[derive(Clone, Copy, Debug, PartialEq, Eq, Structural)]
pub enum RouteKind {
    /// The input's pointer hovers the portal this frame.
    Hover,
    /// The portal is being dragged but is not hovered this frame.
    Drag,
}

/// A pointer hovering a portal this frame, in the order the hover map was walked.
///
/// Pointers are known by keys: two inputs come from the same pointer exactly when their
/// keys are equal.
#[derive(Clone, Copy, Debug, PartialEq, Eq, Structural)]
pub struct HoverHit {
    /// The hovering pointer.
    pub pointer: u64,
    /// The portal entity it hovers.
    pub portal: u64,
    /// Whether the pointer inputs are read for this hit: the portal's primary camera was
    /// found with its global transform.
    pub reads_inputs: bool,
}

/// A pointer input sent on to a portal's own pointer.
#[derive(Clone, Copy, Debug, PartialEq, Eq, Structural)]
pub struct Route {
    /// The index of the input among this frame's unread pointer inputs.
    pub input: usize,
    /// The portal entity whose pointer receives it.
    pub portal: u64,
    /// Why it is sent there.
    pub kind: RouteKind,
}

/// The inputs sent by `pointer` (by any pointer when `pointer` is `None`), each routed
/// to `portal`, in the order of the inputs.
pub open spec fn routes_through(inputs: Seq<u64>, pointer: Option<u64>, portal: u64, kind: RouteKind) -> Seq<Route>
    decreases inputs.len(),
{
    if inputs.len() == 0 {
        seq![]
    } else {
        let earlier = routes_through(inputs.drop_last(), pointer, portal, kind);
        if pointer is None || pointer == Some(inputs.last()) {
            earlier.push(Route { input: (inputs.len() - 1) as usize, portal, kind })
        } else {
            earlier
        }
    }
}

/// The index of the first hit for which the inputs are read.
pub open spec fn first_reading_hit(hits: Seq<HoverHit>) -> Option<int>
    decreases hits.len(),
{
    if hits.len() == 0 {
        None
    } else {
        match first_reading_hit(hits.drop_last()) {
            Some(k) => Some(k),
            None => if hits.last().reads_inputs {
                Some(hits.len() - 1)
            } else {
                None
            },
        }
    }
}

/// Whether some pointer hovers `portal` this frame.
pub open spec fn hovered(hits: Seq<HoverHit>, portal: u64) -> bool {
    exists|k: int| 0 <= k < hits.len() && #[trigger] hits[k].portal == portal
}

/// Whether `entity` is a portal that no pointer hovers this frame.
pub open spec fn unhovered_portal(portals: Seq<u64>, hits: Seq<HoverHit>, entity: u64) -> bool {
    portals.contains(entity) && !hovered(hits, entity)
}

/// The index of the first drag whose target is a portal that no pointer hovers.
pub open spec fn first_unhovered_drag(portals: Seq<u64>, hits: Seq<HoverHit>, drags: Seq<u64>) -> Option<int>
    decreases drags.len(),
{
    if drags.len() == 0 {
        None
    } else {
        match first_unhovered_drag(portals, hits, drags.drop_last()) {
            Some(j) => Some(j),
            None => if unhovered_portal(portals, hits, drags.last()) {
                Some(drags.len() - 1)
            } else {
                None
            },
        }
    }
}

/// Where this frame's pointer inputs are sent.
///
/// The inputs are read once: the first hit for which they are read takes them all and
/// sends on those of its hovering pointer; the hits after it find nothing left to read.
/// When no hit reads them, the first drag of a portal that no pointer hovers takes them
/// all.
pub open spec fn spec_hover_routes(portals: Seq<u64>, hits: Seq<HoverHit>, inputs: Seq<u64>, drags: Seq<u64>) -> Seq<Route> {
    match first_reading_hit(hits) {
        Some(k) => routes_through(inputs, Some(hits[k].pointer), hits[k].portal, RouteKind::Hover),
        None => match first_unhovered_drag(portals, hits, drags) {
            Some(j) => routes_through(inputs, None, drags[j], RouteKind::Drag),
            None => seq![],
        },
    }
}

proof fn lemma_first_reading_hit_bounds(hits: Seq<HoverHit>)
    ensures
        first_reading_hit(hits) matches Some(k) ==> 0 <= k < hits.len() && hits[k].reads_inputs,
    decreases hits.len(),
{
    if hits.len() > 0 {
        lemma_first_reading_hit_bounds(hits.drop_last());
    }
}

proof fn lemma_first_unhovered_drag_bounds(portals: Seq<u64>, hits: Seq<HoverHit>, drags: Seq<u64>)
    ensures
        first_unhovered_drag(portals, hits, drags) matches Some(j) ==> 0 <= j < drags.len()
            && unhovered_portal(portals, hits, drags[j]),
    decreases drags.len(),
{
    if drags.len() > 0 {
        lemma_first_unhovered_drag_bounds(portals, hits, drags.drop_last());
    }
}

/// Every route through one portal goes to that portal with one kind, names an input that
/// exists (and, for one pointer, an input of that pointer), and the inputs come in
/// strictly increasing order.
proof fn lemma_routes_through(inputs: Seq<u64>, pointer: Option<u64>, portal: u64, kind: RouteKind)
    requires
        inputs.len() <= usize::MAX,
    ensures
        ({
            let r = routes_through(inputs, pointer, portal, kind);
            &&& r.len() <= inputs.len()
            &&& forall|k: int| 0 <= k < r.len() ==> {
                &&& (#[trigger] r[k]).portal == portal
                &&& r[k].kind == kind
                &&& 0 <= r[k].input < inputs.len()
                &&& (pointer matches Some(p) ==> inputs[r[k].input as int] == p)
            }
            &&& forall|k1: int, k2: int| 0 <= k1 < k2 < r.len() ==> (#[trigger] r[k1]).input < (#[trigger] r[k2]).input
        }),
    decreases inputs.len(),
{
    if inputs.len() > 0 {
        let earlier = inputs.drop_last();
        lemma_routes_through(earlier, pointer, portal, kind);
        let e = routes_through(earlier, pointer, portal, kind);
        let r = routes_through(inputs, pointer, portal, kind);
        assert forall|k: int| 0 <= k < e.len() implies inputs[e[k].input as int] == earlier[e[k].input as int] by {
        }
        if pointer is None || pointer == Some(inputs.last()) {
            assert(r == e.push(Route { input: (inputs.len() - 1) as usize, portal, kind }));
            assert forall|k1: int, k2: int| 0 <= k1 < k2 < r.len() implies (#[trigger] r[k1]).input < (#[trigger] r[k2]).input by {
                if k2 < e.len() {
                    assert(r[k1] == e[k1] && r[k2] == e[k2]);
                } else {
                    assert(r[k1] == e[k1]);
                }
            }
            assert forall|k: int| 0 <= k < r.len() implies {
                &&& (#[trigger] r[k]).portal == portal
                &&& r[k].kind == kind
                &&& 0 <= r[k].input < inputs.len()
                &&& (pointer matches Some(p) ==> inputs[r[k].input as int] == p)
            } by {
                if k < e.len() {
                    assert(r[k] == e[k]);
                }
            }
        }
    }
}

/// Each pointer input is sent on at most once this frame: no two routes name the same
/// input. All routes go to one portal for one reason; an input sent on because of a hover
/// was sent by the hovering pointer; a dragged portal receives inputs only while no
/// pointer hovers it.
pub proof fn lemma_each_input_routed_once(portals: Seq<u64>, hits: Seq<HoverHit>, inputs: Seq<u64>, drags: Seq<u64>)
    requires
        inputs.len() <= usize::MAX,
    ensures
        ({
            let r = spec_hover_routes(portals, hits, inputs, drags);
            &&& forall|k1: int, k2: int| 0 <= k1 < r.len() && 0 <= k2 < r.len() && k1 != k2
                ==> (#[trigger] r[k1]).input != (#[trigger] r[k2]).input
            &&& forall|k1: int, k2: int| 0 <= k1 < r.len() && 0 <= k2 < r.len()
                ==> (#[trigger] r[k1]).portal == (#[trigger] r[k2]).portal && r[k1].kind == r[k2].kind
            &&& forall|k: int| 0 <= k < r.len() ==> 0 <= (#[trigger] r[k]).input < inputs.len()
            &&& forall|k: int| 0 <= k < r.len() && (#[trigger] r[k]).kind == RouteKind::Hover ==>
                exists|h: int| 0 <= h < hits.len() && hits[h].portal == r[k].portal
                    && hits[h].pointer == inputs[r[k].input as int]
            &&& forall|k: int| 0 <= k < r.len() && (#[trigger] r[k]).kind == RouteKind::Drag ==>
                drags.contains(r[k].portal) && unhovered_portal(portals, hits, r[k].portal)
        }),
{
    lemma_first_reading_hit_bounds(hits);
    lemma_first_unhovered_drag_bounds(portals, hits, drags);
    let r = spec_hover_routes(portals, hits, inputs, drags);
    match first_reading_hit(hits) {
        Some(h) => {
            lemma_routes_through(inputs, Some(hits[h].pointer), hits[h].portal, RouteKind::Hover);
            assert forall|k1: int, k2: int| 0 <= k1 < r.len() && 0 <= k2 < r.len() && k1 != k2
                implies (#[trigger] r[k1]).input != (#[trigger] r[k2]).input by {
                if k1 < k2 {
                    assert(r[k1].input < r[k2].input);
                } else {
                    assert(r[k2].input < r[k1].input);
                }
            }
            assert forall|k: int| 0 <= k < r.len() && (#[trigger] r[k]).kind == RouteKind::Hover
                implies exists|h2: int| 0 <= h2 < hits.len() && hits[h2].portal == r[k].portal
                    && hits[h2].pointer == inputs[r[k].input as int] by {
                assert(hits[h].portal == r[k].portal);
            }
        },
        None => match first_unhovered_drag(portals, hits, drags) {
            Some(j) => {
                lemma_routes_through(inputs, None, drags[j], RouteKind::Drag);
                assert forall|k1: int, k2: int| 0 <= k1 < r.len() && 0 <= k2 < r.len() && k1 != k2
                    implies (#[trigger] r[k1]).input != (#[trigger] r[k2]).input by {
                    if k1 < k2 {
                        assert(r[k1].input < r[k2].input);
                    } else {
                        assert(r[k2].input < r[k1].input);
                    }
                }
                assert forall|k: int| 0 <= k < r.len() && (#[trigger] r[k]).kind == RouteKind::Drag
                    implies drags.contains(r[k].portal) && unhovered_portal(portals, hits, r[k].portal) by {
                    assert(drags[j] == r[k].portal);
                }
            },
            None => {},
        },
    }
}

proof fn lemma_first_reading_hit_prefix(hits: Seq<HoverHit>, m: int)
    requires
        0 <= m <= hits.len(),
        first_reading_hit(hits.take(m)) is Some,
    ensures
        first_reading_hit(hits) == first_reading_hit(hits.take(m)),
    decreases hits.len(),
{
    if m == hits.len() {
        assert(hits.take(m) =~= hits);
    } else {
        assert(hits.drop_last().take(m) =~= hits.take(m));
        lemma_first_reading_hit_prefix(hits.drop_last(), m);
    }
}

proof fn lemma_first_unhovered_drag_prefix(portals: Seq<u64>, hits: Seq<HoverHit>, drags: Seq<u64>, m: int)
    requires
        0 <= m <= drags.len(),
        first_unhovered_drag(portals, hits, drags.take(m)) is Some,
    ensures
        first_unhovered_drag(portals, hits, drags) == first_unhovered_drag(portals, hits, drags.take(m)),
    decreases drags.len(),
{
    if m == drags.len() {
        assert(drags.take(m) =~= drags);
    } else {
        assert(drags.drop_last().take(m) =~= drags.take(m));
        lemma_first_unhovered_drag_prefix(portals, hits, drags.drop_last(), m);
    }
}

/// The inputs of `pointer` (of every pointer when `pointer` is `None`), routed to `portal`.
fn collect_routes(inputs: &Vec<u64>, pointer: Option<u64>, portal: u64, kind: RouteKind) -> (routes: Vec<Route>)
    ensures
        routes@ == routes_through(inputs@, pointer, portal, kind),
{
    let mut routes: Vec<Route> = Vec::new();
    let mut i: usize = 0;
    while i < inputs.len()
        invariant
            i <= inputs.len(),
            routes@ == routes_through(inputs@.take(i as int), pointer, portal, kind),
        decreases inputs.len() - i,
    {
        assert(inputs@.take(i + 1).drop_last() =~= inputs@.take(i as int));
        let selected = match pointer {
            None => true,
            Some(p) => p == inputs[i],
        };
        if selected {
            routes.push(Route { input: i, portal, kind });
        }
        i = i + 1;
    }
    assert(inputs@.take(inputs.len() as int) =~= inputs@);
    routes
}

/// Decides where this frame's pointer inputs are sent "through" portals.
///
/// `portals` are all portal entities, `hits` the pointers hovering portals in the order
/// the hover map was walked, `input_pointers` the pointer of each unread pointer input in
/// order, and `drags` the targets of this frame's drag events in order. Each route names
/// an input and the portal whose pointer receives it; a hover route is still dropped when
/// the input's position cannot be carried through the portal.
pub fn portal_hover_routes(
    portals: &Vec<u64>,
    hits: &Vec<HoverHit>,
    input_pointers: &Vec<u64>,
    drags: &Vec<u64>,
) -> (routes: Vec<Route>)
    ensures
        routes@ == spec_hover_routes(portals@, hits@, input_pointers@, drags@),
{
    let mut i: usize = 0;
    while i < hits.len()
        invariant
            i <= hits.len(),
            first_reading_hit(hits@.take(i as int)) is None,
        decreases hits.len() - i,
    {
        assert(hits@.take(i + 1).drop_last() =~= hits@.take(i as int));
        if hits[i].reads_inputs {
            proof {
                lemma_first_reading_hit_prefix(hits@, i + 1);
            }
            return collect_routes(input_pointers, Some(hits[i].pointer), hits[i].portal, RouteKind::Hover);
        }
        i = i + 1;
    }
    assert(hits@.take(hits.len() as int) =~= hits@);
    // Which portals no pointer hovers this frame.
    let mut missing = entity_set_from(portals);
    let mut h: usize = 0;
    while h < hits.len()
        invariant
            h <= hits.len(),
            forall|e: u64| #[trigger] entity_set_contents(missing).contains(e)
                <==> (portals@.contains(e) && forall|k: int| 0 <= k < h ==> hits@[k].portal != e),
        decreases hits.len() - h,
    {
        entity_set_remove(&mut missing, hits[h].portal);
        h = h + 1;
    }
    assert forall|e: u64| #[trigger] entity_set_contents(missing).contains(e)
        == unhovered_portal(portals@, hits@, e) by {
        if !entity_set_contents(missing).contains(e) && portals@.contains(e) {
            let k = choose|k: int| 0 <= k < hits.len() && hits@[k].portal == e;
            assert(hits@[k].portal == e);
        }
    }
    let mut j: usize = 0;
    while j < drags.len()
        invariant
            j <= drags.len(),
            first_reading_hit(hits@) is None,
            first_unhovered_drag(portals@, hits@, drags@.take(j as int)) is None,
            forall|e: u64| #[trigger] entity_set_contents(missing).contains(e)
                == unhovered_portal(portals@, hits@, e),
        decreases drags.len() - j,
    {
        assert(drags@.take(j + 1).drop_last() =~= drags@.take(j as int));
        let target = drags[j];
        if entity_set_contains(&missing, target) {
            proof {
                lemma_first_unhovered_drag_prefix(portals@, hits@, drags@, j + 1);
            }
            return collect_routes(input_pointers, None, target, RouteKind::Drag);
        }
        j = j + 1;
    }
    assert(drags@.take(drags.len() as int) =~= drags@);
    Vec::new()
}

proof fn lemma_no_reading_hit(hits: Seq<HoverHit>)
    requires
        forall|h: int| 0 <= h < hits.len() ==> !(#[trigger] hits[h]).reads_inputs,
    ensures
        first_reading_hit(hits) is None,
    decreases hits.len(),
{
    if hits.len() > 0 {
        lemma_no_reading_hit(hits.drop_last());
    }
}

proof fn lemma_first_reading_hit_is(hits: Seq<HoverHit>, k: int)
    requires
        0 <= k < hits.len(),
        hits[k].reads_inputs,
        forall|h: int| 0 <= h < k ==> !(#[trigger] hits[h]).reads_inputs,
    ensures
        first_reading_hit(hits) == Some(k),
    decreases hits.len(),
{
    if k == hits.len() - 1 {
        lemma_no_reading_hit(hits.drop_last());
    } else {
        lemma_first_reading_hit_is(hits.drop_last(), k);
    }
}

proof fn lemma_no_unhovered_drag(portals: Seq<u64>, hits: Seq<HoverHit>, drags: Seq<u64>)
    requires
        forall|d: int| 0 <= d < drags.len() ==> !unhovered_portal(portals, hits, #[trigger] drags[d]),
    ensures
        first_unhovered_drag(portals, hits, drags) is None,
    decreases drags.len(),
{
    if drags.len() > 0 {
        lemma_no_unhovered_drag(portals, hits, drags.drop_last());
    }
}

proof fn lemma_first_unhovered_drag_is(portals: Seq<u64>, hits: Seq<HoverHit>, drags: Seq<u64>, j: int)
    requires
        0 <= j < drags.len(),
        unhovered_portal(portals, hits, drags[j]),
        forall|d: int| 0 <= d < j ==> !unhovered_portal(portals, hits, #[trigger] drags[d]),
    ensures
        first_unhovered_drag(portals, hits, drags) == Some(j),
    decreases drags.len(),
{
    if j == drags.len() - 1 {
        lemma_no_unhovered_drag(portals, hits, drags.drop_last());
    } else {
        lemma_first_unhovered_drag_is(portals, hits, drags.drop_last(), j);
    }
}

/// Whether some route names input `i`.
spec fn routes_input(r: Seq<Route>, i: int) -> bool {
    exists|t: int| 0 <= t < r.len() && r[t].input == i
}

/// Every input that the pointer sent (every input, for no pointer) is routed.
proof fn lemma_routes_through_complete(inputs: Seq<u64>, pointer: Option<u64>, portal: u64, kind: RouteKind, i: int)
    requires
        inputs.len() <= usize::MAX,
        0 <= i < inputs.len(),
        pointer is None || pointer == Some(inputs[i]),
    ensures
        routes_input(routes_through(inputs, pointer, portal, kind), i),
    decreases inputs.len(),
{
    let earlier = inputs.drop_last();
    let e = routes_through(earlier, pointer, portal, kind);
    let r = routes_through(inputs, pointer, portal, kind);
    if i < inputs.len() - 1 {
        assert(earlier[i] == inputs[i]);
        lemma_routes_through_complete(earlier, pointer, portal, kind, i);
        let t = choose|t: int| 0 <= t < e.len() && e[t].input == i;
        if pointer is None || pointer == Some(inputs.last()) {
            assert(r == e.push(Route { input: (inputs.len() - 1) as usize, portal, kind }));
            assert(r[t] == e[t]);
        }
        assert(r[t].input == i);
    } else {
        assert(r == e.push(Route { input: (inputs.len() - 1) as usize, portal, kind }));
        assert(r[e.len() as int].input == i);
    }
}

/// With no pointer, the routes are the inputs themselves, one each, in order.
proof fn lemma_routes_through_all(inputs: Seq<u64>, portal: u64, kind: RouteKind)
    requires
        inputs.len() <= usize::MAX,
    ensures
        routes_through(inputs, None, portal, kind).len() == inputs.len(),
        forall|t: int| 0 <= t < inputs.len() ==> #[trigger] routes_through(inputs, None, portal, kind)[t]
            == (Route { input: t as usize, portal, kind }),
    decreases inputs.len(),
{
    if inputs.len() > 0 {
        lemma_routes_through_all(inputs.drop_last(), portal, kind);
    }
}

/// A pointer hovering a portal: when hit `k` is the first hit for which the inputs are
/// read, the inputs sent on are exactly those of the hovering pointer `hits[k].pointer`,
/// every one of them, each once and in their order, all to the hovered portal
/// `hits[k].portal`. Inputs of any other pointer are not sent on, whichever portal that
/// pointer hovers.
pub proof fn law_hover_routes_carry_the_hovering_pointer(
    portals: Seq<u64>,
    hits: Seq<HoverHit>,
    inputs: Seq<u64>,
    drags: Seq<u64>,
    k: int,
)
    requires
        inputs.len() <= usize::MAX,
        0 <= k < hits.len(),
        hits[k].reads_inputs,
        forall|h: int| 0 <= h < k ==> !(#[trigger] hits[h]).reads_inputs,
    ensures
        ({
            let r = spec_hover_routes(portals, hits, inputs, drags);
            &&& forall|t: int| 0 <= t < r.len() ==> {
                &&& (#[trigger] r[t]).kind == RouteKind::Hover
                &&& r[t].portal == hits[k].portal
                &&& 0 <= r[t].input < inputs.len()
                &&& inputs[r[t].input as int] == hits[k].pointer
            }
            &&& forall|t1: int, t2: int| 0 <= t1 < t2 < r.len() ==> (#[trigger] r[t1]).input < (#[trigger] r[t2]).input
            &&& forall|i: int| 0 <= i < inputs.len() && #[trigger] inputs[i] == hits[k].pointer
                ==> exists|t: int| 0 <= t < r.len() && r[t].input == i
        }),
{
    lemma_first_reading_hit_is(hits, k);
    lemma_routes_through(inputs, Some(hits[k].pointer), hits[k].portal, RouteKind::Hover);
    assert forall|i: int| 0 <= i < inputs.len() && #[trigger] inputs[i] == hits[k].pointer
        implies exists|t: int| 0 <= t < spec_hover_routes(portals, hits, inputs, drags).len()
            && spec_hover_routes(portals, hits, inputs, drags)[t].input == i by {
        lemma_routes_through_complete(inputs, Some(hits[k].pointer), hits[k].portal, RouteKind::Hover, i);
    }
}

/// A drag that leaves its portal: when no hit reads the inputs and `drags[j]` is the first
/// drag whose target is a portal that no pointer hovers, every input of this frame is sent
/// on, once each and in order, to `drags[j]`; the drags after it receive nothing.
pub proof fn law_drag_routes_go_to_first_unhovered_drag(
    portals: Seq<u64>,
    hits: Seq<HoverHit>,
    inputs: Seq<u64>,
    drags: Seq<u64>,
    j: int,
)
    requires
        inputs.len() <= usize::MAX,
        forall|h: int| 0 <= h < hits.len() ==> !(#[trigger] hits[h]).reads_inputs,
        0 <= j < drags.len(),
        portals.contains(drags[j]),
        forall|h: int| 0 <= h < hits.len() ==> (#[trigger] hits[h]).portal != drags[j],
        forall|d: int| 0 <= d < j ==> !portals.contains(#[trigger] drags[d])
            || exists|h: int| 0 <= h < hits.len() && hits[h].portal == drags[d],
    ensures
        spec_hover_routes(portals, hits, inputs, drags).len() == inputs.len(),
        forall|t: int| 0 <= t < inputs.len() ==> #[trigger] spec_hover_routes(portals, hits, inputs, drags)[t]
            == (Route { input: t as usize, portal: drags[j], kind: RouteKind::Drag }),
{
    lemma_no_reading_hit(hits);
    assert forall|d: int| 0 <= d < j implies !unhovered_portal(portals, hits, #[trigger] drags[d]) by {
        if portals.contains(drags[d]) {
            let h = choose|h: int| 0 <= h < hits.len() && hits[h].portal == drags[d];
            assert(hits[h].portal == drags[d]);
        }
    }
    assert(!hovered(hits, drags[j]));
    lemma_first_unhovered_drag_is(portals, hits, drags, j);
    lemma_routes_through_all(inputs, drags[j], RouteKind::Drag);
}

/// Nothing is sent on when no hit reads the inputs and every drag targets an entity that is
/// no portal or a portal some pointer hovers.
pub proof fn law_no_routes_without_reader(portals: Seq<u64>, hits: Seq<HoverHit>, inputs: Seq<u64>, drags: Seq<u64>)
    requires
        forall|h: int| 0 <= h < hits.len() ==> !(#[trigger] hits[h]).reads_inputs,
        forall|d: int| 0 <= d < drags.len() ==> !portals.contains(#[trigger] drags[d])
            || exists|h: int| 0 <= h < hits.len() && hits[h].portal == drags[d],
    ensures
        spec_hover_routes(portals, hits, inputs, drags).len() == 0,
{
    lemma_no_reading_hit(hits);
    assert forall|d: int| 0 <= d < drags.len() implies !unhovered_portal(portals, hits, #[trigger] drags[d]) by {
        if portals.contains(drags[d]) {
            let h = choose|h: int| 0 <= h < hits.len() && hits[h].portal == drags[d];
            assert(hits[h].portal == drags[d]);
        }
    }
    lemma_no_unhovered_drag(portals, hits, drags);
}

} // verus!
