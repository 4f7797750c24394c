//! All-pairs AABB collision detection over the entities that carry an
//! active hitbox.
//!
//! The overlap test is inclusive: boxes that merely touch at an edge, and
//! degenerate zero-size boxes lying on a boundary, count as overlapping.
//! To keep half-sizes exact in integer arithmetic, the overlap test works
//! on doubled coordinates: the box `[2c - s, 2c + s]` on each axis, where
//! `c` is the centre and `s` the full extent. This is the inclusive
//! comparison of `c - s/2` against the other box, scaled by two, with no
//! rounding.

use vstd::prelude::*;
use crate::components::{EntityId, Hitbox, Position, hitbox_wf};
use crate::entity_manager::EntityManager;

verus! {

/// An axis-aligned bounding box in world units.
#[derive(Clone, Copy, Debug, PartialEq, Eq, Structural)]
pub struct Aabb {
    pub left: i64,
    pub right: i64,
    pub top: i64,
    pub bottom: i64,
}

/// Twice the left edge of the box that `h` spans around `p`.
pub open spec fn spec_left2(p: Position, h: Hitbox) -> int {
    2 * (p.x + h.offset[0]) - h.size[0]
}

/// Twice the right edge of the box that `h` spans around `p`.
pub open spec fn spec_right2(p: Position, h: Hitbox) -> int {
    2 * (p.x + h.offset[0]) + h.size[0]
}

/// Twice the top edge of the box that `h` spans around `p`.
pub open spec fn spec_top2(p: Position, h: Hitbox) -> int {
    2 * (p.y + h.offset[1]) - h.size[1]
}

/// Twice the bottom edge of the box that `h` spans around `p`.
pub open spec fn spec_bottom2(p: Position, h: Hitbox) -> int {
    2 * (p.y + h.offset[1]) + h.size[1]
}

/// The inclusive AABB overlap test, stated on doubled coordinates so that
/// half-sizes need no rounding.
pub open spec fn spec_overlap(pa: Position, ha: Hitbox, pb: Position, hb: Hitbox) -> bool {
    &&& spec_left2(pa, ha) <= spec_right2(pb, hb)
    &&& spec_right2(pa, ha) >= spec_left2(pb, hb)
    &&& spec_top2(pa, ha) <= spec_bottom2(pb, hb)
    &&& spec_bottom2(pa, ha) >= spec_top2(pb, hb)
}

/// The inclusive AABB overlap test on two positioned hitboxes, computed
/// exactly on doubled coordinates.
pub fn check_overlap(
    pos_a: &Position,
    hitbox_a: &Hitbox,
    pos_b: &Position,
    hitbox_b: &Hitbox,
) -> (r: bool)
    ensures
        r == spec_overlap(*pos_a, *hitbox_a, *pos_b, *hitbox_b),
{
    let a_left: i128 = 2 * (pos_a.x as i128 + hitbox_a.offset[0] as i128) - hitbox_a.size[0] as i128;
    let a_right: i128 = 2 * (pos_a.x as i128 + hitbox_a.offset[0] as i128) + hitbox_a.size[0] as i128;
    let a_top: i128 = 2 * (pos_a.y as i128 + hitbox_a.offset[1] as i128) - hitbox_a.size[1] as i128;
    let a_bottom: i128 = 2 * (pos_a.y as i128 + hitbox_a.offset[1] as i128) + hitbox_a.size[1] as i128;
    let b_left: i128 = 2 * (pos_b.x as i128 + hitbox_b.offset[0] as i128) - hitbox_b.size[0] as i128;
    let b_right: i128 = 2 * (pos_b.x as i128 + hitbox_b.offset[0] as i128) + hitbox_b.size[0] as i128;
    let b_top: i128 = 2 * (pos_b.y as i128 + hitbox_b.offset[1] as i128) - hitbox_b.size[1] as i128;
    let b_bottom: i128 = 2 * (pos_b.y as i128 + hitbox_b.offset[1] as i128) + hitbox_b.size[1] as i128;
    a_left <= b_right && a_right >= b_left && a_top <= b_bottom && a_bottom >= b_top
}

/// The overlap test does not depend on the order of its two boxes.
pub proof fn lemma_overlap_symmetric(pa: Position, ha: Hitbox, pb: Position, hb: Hitbox)
    ensures
        spec_overlap(pa, ha, pb, hb) == spec_overlap(pb, hb, pa, ha),
{
}

/// A well-formed hitbox spans an ordered box: left at most right, top at
/// most bottom.
pub proof fn lemma_bounds_ordered(p: Position, h: Hitbox)
    requires
        hitbox_wf(h),
    ensures
        spec_left2(p, h) <= spec_right2(p, h),
        spec_top2(p, h) <= spec_bottom2(p, h),
{
}

/// The doubled-coordinate overlap test agrees with the inclusive
/// comparison of whole-unit bounding boxes, wherever such boxes are
/// exact: scaling both sides of each comparison by two changes nothing.
pub proof fn lemma_overlap_matches_bounds(
    pa: Position,
    ha: Hitbox,
    pb: Position,
    hb: Hitbox,
    box_a: Aabb,
    box_b: Aabb,
)
    requires
        2 * box_a.left == spec_left2(pa, ha),
        2 * box_a.right == spec_right2(pa, ha),
        2 * box_a.top == spec_top2(pa, ha),
        2 * box_a.bottom == spec_bottom2(pa, ha),
        2 * box_b.left == spec_left2(pb, hb),
        2 * box_b.right == spec_right2(pb, hb),
        2 * box_b.top == spec_top2(pb, hb),
        2 * box_b.bottom == spec_bottom2(pb, hb),
    ensures
        spec_overlap(pa, ha, pb, hb) == (box_a.left <= box_b.right && box_a.right >= box_b.left
            && box_a.top <= box_b.bottom && box_a.bottom >= box_b.top),
{
}

/// One collision found by a single detector pass: the two entities whose
/// active hitboxes overlapped, and the time of the pass.
#[derive(Clone, Copy, Debug, PartialEq, Eq, Structural)]
pub struct CollisionEvent {
    pub entity_a: EntityId,
    pub entity_b: EntityId,
    pub timestamp_millis: u64,
}

/// Whether `id` takes part in collision detection: it has a position and
/// an active hitbox.
pub open spec fn active_collider(
    positions: Map<EntityId, Position>,
    hitboxes: Map<EntityId, Hitbox>,
    id: EntityId,
) -> bool {
    positions.contains_key(id) && hitboxes.contains_key(id) && hitboxes[id].active
}

/// Whether a detector pass over a world with the given positions and
/// hitboxes reports the pair `(a, b)`: both are active colliders, their
/// boxes overlap, and the pair is written with the smaller id first.
pub open spec fn reported_pair(
    positions: Map<EntityId, Position>,
    hitboxes: Map<EntityId, Hitbox>,
    a: EntityId,
    b: EntityId,
) -> bool {
    &&& a < b
    &&& active_collider(positions, hitboxes, a)
    &&& active_collider(positions, hitboxes, b)
    &&& spec_overlap(positions[a], hitboxes[a], positions[b], hitboxes[b])
}

/// Whether some event on the list names the pair `(a, b)`.
pub open spec fn pair_event_recorded(events: Seq<CollisionEvent>, a: EntityId, b: EntityId) -> bool {
    exists|i: int|
        0 <= i < events.len()
        && (#[trigger] events[i]).entity_a == a
        && events[i].entity_b == b
}

/// Every reported pair has its event on the list.
pub open spec fn events_complete_reported(
    events: Seq<CollisionEvent>,
    positions: Map<EntityId, Position>,
    hitboxes: Map<EntityId, Hitbox>,
) -> bool {
    forall|a: EntityId, b: EntityId|
        #[trigger] reported_pair(positions, hitboxes, a, b)
            ==> pair_event_recorded(events, a, b)
}

/// What one detector pass at `now` leaves in the event list, given the
/// positions and hitboxes it scanned: exactly one event per reported
/// pair, each stamped with `now`.
pub open spec fn detector_pass(
    positions: Map<EntityId, Position>,
    hitboxes: Map<EntityId, Hitbox>,
    events: Seq<CollisionEvent>,
    now: u64,
) -> bool {
    &&& events_sound(events, positions, hitboxes, now)
    &&& events_distinct(events)
    &&& events_complete_reported(events, positions, hitboxes)
}

/// An entity whose hitbox is inactive (or missing) never appears in a
/// reported pair, however the boxes lie geometrically.
pub proof fn lemma_inactive_never_reported(
    positions: Map<EntityId, Position>,
    hitboxes: Map<EntityId, Hitbox>,
    a: EntityId,
    b: EntityId,
)
    requires
        !(hitboxes.contains_key(a) && hitboxes[a].active),
    ensures
        !reported_pair(positions, hitboxes, a, b),
        !reported_pair(positions, hitboxes, b, a),
{
}

/// How one poll changes the detector: it hands out every stored event and
/// leaves none behind.
pub open spec fn poll_transition(
    pre: Seq<CollisionEvent>,
    post: Seq<CollisionEvent>,
    returned: Seq<CollisionEvent>,
) -> bool {
    returned == pre && post == Seq::<CollisionEvent>::empty()
}

/// Events are consumed once: whatever the first poll returned, a second
/// poll with no detector pass in between returns nothing.
pub proof fn lemma_second_poll_empty(
    start: Seq<CollisionEvent>,
    mid: Seq<CollisionEvent>,
    end: Seq<CollisionEvent>,
    first: Seq<CollisionEvent>,
    second: Seq<CollisionEvent>,
)
    requires
        poll_transition(start, mid, first),
        poll_transition(mid, end, second),
    ensures
        second =~= Seq::<CollisionEvent>::empty(),
{
}

/// Whether the collider list is sorted by strictly increasing id.
pub open spec fn colliders_sorted(cs: Seq<(EntityId, Position, Hitbox)>) -> bool {
    forall|u: int, v: int| #![trigger cs[u], cs[v]]
        0 <= u < v < cs.len() ==> cs[u].0 < cs[v].0
}

/// Whether every collider entry carries the position and hitbox that the
/// world maps attach to its id.
pub open spec fn colliders_match(
    cs: Seq<(EntityId, Position, Hitbox)>,
    positions: Map<EntityId, Position>,
    hitboxes: Map<EntityId, Hitbox>,
) -> bool {
    forall|u: int| #![trigger cs[u]]
        0 <= u < cs.len() ==> {
            &&& positions.contains_key(cs[u].0)
            &&& hitboxes.contains_key(cs[u].0)
            &&& cs[u].1 == positions[cs[u].0]
            &&& cs[u].2 == hitboxes[cs[u].0]
        }
}

/// Whether the pair of collider indices `(u, v)` has already been scanned
/// when the pass stands at outer index `i`, inner index `j`.
pub open spec fn scanned(u: int, v: int, i: int, j: int) -> bool {
    u < i || (u == i && v < j)
}

/// Every event is a reported pair stamped with `now`.
pub open spec fn events_sound(
    events: Seq<CollisionEvent>,
    positions: Map<EntityId, Position>,
    hitboxes: Map<EntityId, Hitbox>,
    now: u64,
) -> bool {
    forall|e: int| #![trigger events[e]]
        0 <= e < events.len() ==> {
            &&& reported_pair(positions, hitboxes, events[e].entity_a, events[e].entity_b)
            &&& events[e].timestamp_millis == now
        }
}

/// Whether event `e` names the ids of a pair of colliders scanned before
/// the pass reached outer index `i`, inner index `j`.
pub open spec fn event_from_scanned(
    events: Seq<CollisionEvent>,
    cs: Seq<(EntityId, Position, Hitbox)>,
    i: int,
    j: int,
    e: int,
) -> bool {
    exists|u: int, v: int|
        0 <= u < v < cs.len() && scanned(u, v, i, j)
        && (#[trigger] cs[u]).0 == events[e].entity_a
        && (#[trigger] cs[v]).0 == events[e].entity_b
}

/// Every event names the ids of an already-scanned pair of colliders.
pub open spec fn events_correspond(
    events: Seq<CollisionEvent>,
    cs: Seq<(EntityId, Position, Hitbox)>,
    i: int,
    j: int,
) -> bool {
    forall|e: int|
        0 <= e < events.len() ==> #[trigger] event_from_scanned(events, cs, i, j, e)
}

/// No pair of entities is recorded twice.
pub open spec fn events_distinct(events: Seq<CollisionEvent>) -> bool {
    forall|e1: int, e2: int| #![trigger events[e1], events[e2]]
        0 <= e1 < e2 < events.len() ==> !(
            events[e1].entity_a == events[e2].entity_a
            && events[e1].entity_b == events[e2].entity_b
        )
}

/// Every already-scanned pair of active, overlapping colliders has its
/// event.
pub open spec fn events_complete(
    events: Seq<CollisionEvent>,
    cs: Seq<(EntityId, Position, Hitbox)>,
    i: int,
    j: int,
) -> bool {
    forall|u: int, v: int| #![trigger cs[u], cs[v]]
        0 <= u < v < cs.len() && scanned(u, v, i, j)
            && cs[u].2.active && cs[v].2.active
            && spec_overlap(cs[u].1, cs[u].2, cs[v].1, cs[v].2)
            ==> pair_event_recorded(events, cs[u].0, cs[v].0)
}

/// Scan collider `i` against every later collider, recording an event for
/// each overlapping active pair.
#[verifier::rlimit(60)]
fn scan_row(
    events: &mut Vec<CollisionEvent>,
    colliders: &Vec<(EntityId, Position, Hitbox)>,
    i: usize,
    now_millis: u64,
    Ghost(pos): Ghost<Map<EntityId, Position>>,
    Ghost(hbs): Ghost<Map<EntityId, Hitbox>>,
)
    requires
        i < colliders@.len(),
        colliders_sorted(colliders@),
        colliders_match(colliders@, pos, hbs),
        events_sound(old(events)@, pos, hbs, now_millis),
        events_correspond(old(events)@, colliders@, i as int, i as int + 1),
        events_distinct(old(events)@),
        events_complete(old(events)@, colliders@, i as int, i as int + 1),
    ensures
        events_sound(final(events)@, pos, hbs, now_millis),
        events_correspond(final(events)@, colliders@, i as int + 1, i as int + 2),
        events_distinct(final(events)@),
        events_complete(final(events)@, colliders@, i as int + 1, i as int + 2),
{
    let ghost cs = colliders@;
    let n = colliders.len();
    let pair_a = colliders[i];
    let id_a = pair_a.0;
    let pos_a = pair_a.1;
    let hitbox_a = pair_a.2;
    let mut j: usize = i + 1;
    while j < n
        invariant
            cs == colliders@,
            n == cs.len(),
            i < n,
            i < j <= n,
            pair_a == cs[i as int],
            id_a == cs[i as int].0,
            pos_a == cs[i as int].1,
            hitbox_a == cs[i as int].2,
            colliders_sorted(cs),
            colliders_match(cs, pos, hbs),
            events_sound(events@, pos, hbs, now_millis),
            events_correspond(events@, cs, i as int, j as int),
            events_distinct(events@),
            events_complete(events@, cs, i as int, j as int),
        decreases n - j,
    {
        let pair_b = colliders[j];
        let id_b = pair_b.0;
        let pos_b = pair_b.1;
        let hitbox_b = pair_b.2;
        let ghost before = events@;
        if hitbox_a.active && hitbox_b.active
            && check_overlap(&pos_a, &hitbox_a, &pos_b, &hitbox_b) {
            proof {
                // the new pair was not scanned before, so it is not among
                // the recorded events
                assert forall|e: int| 0 <= e < before.len() implies !(
                    (#[trigger] before[e]).entity_a == id_a && before[e].entity_b == id_b
                ) by {
                    if before[e].entity_a == id_a && before[e].entity_b == id_b {
                        assert(event_from_scanned(before, cs, i as int, j as int, e));
                        let (u, v) = choose|u: int, v: int|
                            0 <= u < v < cs.len() && scanned(u, v, i as int, j as int)
                            && (#[trigger] cs[u]).0 == before[e].entity_a
                            && (#[trigger] cs[v]).0 == before[e].entity_b;
                        if u < i {
                            assert(cs[u].0 < cs[i as int].0);
                        } else {
                            assert(cs[v].0 < cs[j as int].0);
                        }
                    }
                }
            }
            events.push(CollisionEvent {
                entity_a: id_a,
                entity_b: id_b,
                timestamp_millis: now_millis,
            });
            proof {
                let after = events@;
                assert(after[after.len() - 1].entity_a == cs[i as int].0);
                assert(after[after.len() - 1].entity_b == cs[j as int].0);
                assert(cs[i as int].0 < cs[j as int].0);
                assert forall|e: int|
                    0 <= e < after.len() implies #[trigger] event_from_scanned(
                    after,
                    cs,
                    i as int,
                    j + 1,
                    e,
                ) by {
                    if e == after.len() - 1 {
                        assert(scanned(i as int, j as int, i as int, j + 1));
                        assert(cs[i as int].0 == after[e].entity_a);
                        assert(cs[j as int].0 == after[e].entity_b);
                    } else {
                        assert(event_from_scanned(before, cs, i as int, j as int, e));
                        let (u, v) = choose|u: int, v: int|
                            0 <= u < v < cs.len() && scanned(u, v, i as int, j as int)
                            && (#[trigger] cs[u]).0 == before[e].entity_a
                            && (#[trigger] cs[v]).0 == before[e].entity_b;
                        assert(cs[u].0 == after[e].entity_a);
                        assert(cs[v].0 == after[e].entity_b);
                    }
                }
                assert forall|u: int, v: int| #![trigger cs[u], cs[v]]
                    0 <= u < v < cs.len() && scanned(u, v, i as int, j + 1)
                        && cs[u].2.active && cs[v].2.active
                        && spec_overlap(cs[u].1, cs[u].2, cs[v].1, cs[v].2)
                    implies pair_event_recorded(after, cs[u].0, cs[v].0) by {
                    if u == i && v == j {
                        assert(after[after.len() - 1].entity_a == cs[u].0);
                        assert(after[after.len() - 1].entity_b == cs[v].0);
                    } else {
                        assert(pair_event_recorded(before, cs[u].0, cs[v].0));
                        let e = choose|e: int|
                            0 <= e < before.len()
                            && (#[trigger] before[e]).entity_a == cs[u].0
                            && before[e].entity_b == cs[v].0;
                        assert(after[e].entity_a == cs[u].0);
                        assert(after[e].entity_b == cs[v].0);
                    }
                }
            }
        } else {
            proof {
                assert forall|e: int|
                    0 <= e < events@.len() implies #[trigger] event_from_scanned(
                    events@,
                    cs,
                    i as int,
                    j + 1,
                    e,
                ) by {
                    assert(event_from_scanned(events@, cs, i as int, j as int, e));
                    let (u, v) = choose|u: int, v: int|
                        0 <= u < v < cs.len() && scanned(u, v, i as int, j as int)
                        && (#[trigger] cs[u]).0 == events@[e].entity_a
                        && (#[trigger] cs[v]).0 == events@[e].entity_b;
                    assert(scanned(u, v, i as int, j + 1));
                }
                assert forall|u: int, v: int| #![trigger cs[u], cs[v]]
                    0 <= u < v < cs.len() && scanned(u, v, i as int, j + 1)
                        && cs[u].2.active && cs[v].2.active
                        && spec_overlap(cs[u].1, cs[u].2, cs[v].1, cs[v].2)
                    implies pair_event_recorded(events@, cs[u].0, cs[v].0) by {
                    if u == i && v == j {
                        assert(false);
                    } else {
                        assert(scanned(u, v, i as int, j as int));
                    }
                }
            }
        }
        j = j + 1;
    }
    proof {
        lemma_row_advance(events@, cs, i as int);
    }
}

/// Once row `i` is fully scanned, the scanned-pair bound `(i, n)` is the
/// same set of pairs as `(i + 1, i + 2)`: every pair of that row is done.
proof fn lemma_row_advance(
    events: Seq<CollisionEvent>,
    cs: Seq<(EntityId, Position, Hitbox)>,
    i: int,
)
    requires
        0 <= i < cs.len(),
        events_correspond(events, cs, i, cs.len() as int),
        events_complete(events, cs, i, cs.len() as int),
    ensures
        events_correspond(events, cs, i + 1, i + 2),
        events_complete(events, cs, i + 1, i + 2),
{
    if !events_correspond(events, cs, i + 1, i + 2) {
        let e0 = choose|e: int|
            0 <= e < events.len() && !#[trigger] event_from_scanned(events, cs, i + 1, i + 2, e);
        assert(event_from_scanned(events, cs, i, cs.len() as int, e0));
        let (u, v) = choose|u: int, v: int|
            0 <= u < v < cs.len() && scanned(u, v, i, cs.len() as int)
            && (#[trigger] cs[u]).0 == events[e0].entity_a
            && (#[trigger] cs[v]).0 == events[e0].entity_b;
        assert(scanned(u, v, i + 1, i + 2));
        assert(event_from_scanned(events, cs, i + 1, i + 2, e0));
        assert(false);
    }
    if !events_complete(events, cs, i + 1, i + 2) {
        let (u0, v0) = choose|u: int, v: int|
            #![trigger cs[u], cs[v]]
            0 <= u < v < cs.len() && scanned(u, v, i + 1, i + 2)
            && cs[u].2.active && cs[v].2.active
            && spec_overlap(cs[u].1, cs[u].2, cs[v].1, cs[v].2)
            && !pair_event_recorded(events, cs[u].0, cs[v].0);
        assert(scanned(u0, v0, i, cs.len() as int));
        assert(false);
    }
}

/// The collision detector and the events of its most recent pass.
pub struct CollisionSystem {
    pub events: Vec<CollisionEvent>,
}

impl CollisionSystem {
    /// A detector with no events yet.
    pub fn new() -> (r: Self)
        ensures
            r.events@ =~= Seq::<CollisionEvent>::empty(),
    {
        CollisionSystem { events: Vec::new() }
    }

    /// The inclusive AABB overlap test on two positioned hitboxes.
    pub fn check_collision(
        &self,
        pos_a: &Position,
        hitbox_a: &Hitbox,
        pos_b: &Position,
        hitbox_b: &Hitbox,
    ) -> (r: bool)
        ensures
            r == spec_overlap(*pos_a, *hitbox_a, *pos_b, *hitbox_b),
    {
        check_overlap(pos_a, hitbox_a, pos_b, hitbox_b)
    }

    /// One detector pass: drop the previous events, then scan every
    /// unordered pair of entities that carry a position and an active
    /// hitbox, and record one event per overlapping pair, stamped with
    /// `now_millis`. A sustained overlap fires again on every pass; an
    /// inactive hitbox is excluded from the scan entirely.
    pub fn update(&mut self, em: &EntityManager, now_millis: u64)
        requires
            em.wf(),
        ensures
            detector_pass(em.positions(), em.hitboxes(), final(self).events@, now_millis),
            (forall|id: EntityId| !active_collider(em.positions(), em.hitboxes(), id))
                ==> final(self).events@.len() == 0,
    {
        self.events.clear();
        let colliders = em.get_entities_with_hitbox();
        let ghost cs = colliders@;
        let ghost pos = em.positions();
        let ghost hbs = em.hitboxes();
        let n = colliders.len();
        let mut i: usize = 0;
        while i < n
            invariant
                cs == colliders@,
                n == cs.len(),
                i <= n,
                colliders_sorted(cs),
                colliders_match(cs, pos, hbs),
                events_sound(self.events@, pos, hbs, now_millis),
                events_correspond(self.events@, cs, i as int, i as int + 1),
                events_distinct(self.events@),
                events_complete(self.events@, cs, i as int, i as int + 1),
            decreases n - i,
        {
            scan_row(&mut self.events, &colliders, i, now_millis, Ghost(pos), Ghost(hbs));
            i = i + 1;
        }
        proof {
            if !events_complete_reported(self.events@, pos, hbs) {
                let (a0, b0) = choose|a: EntityId, b: EntityId|
                    #[trigger] reported_pair(pos, hbs, a, b)
                    && !pair_event_recorded(self.events@, a, b);
                let u = choose|u: int| 0 <= u < cs.len() && (#[trigger] cs[u]).0 == a0;
                let v = choose|v: int| 0 <= v < cs.len() && (#[trigger] cs[v]).0 == b0;
                if v < u {
                    assert(cs[v].0 < cs[u].0);
                } else if u == v {
                    assert(cs[u].0 == cs[v].0);
                }
                assert(u < v);
                assert(scanned(u, v, n as int, n as int + 1));
                assert(pair_event_recorded(self.events@, cs[u].0, cs[v].0));
                assert(false);
            }
            if forall|id: EntityId| !active_collider(pos, hbs, id) {
                if self.events@.len() > 0 {
                    assert(!active_collider(pos, hbs, self.events@[0].entity_a));
                }
            }
        }
    }

    /// Hand out the events of the most recent pass and clear the list:
    /// events are consumed once.
    pub fn poll(&mut self) -> (r: Vec<CollisionEvent>)
        ensures
            poll_transition(old(self).events@, final(self).events@, r@),
    {
        let r = self.events.split_off(0);
        proof {
            assert(final(self).events@ =~= Seq::<CollisionEvent>::empty());
            assert(r@ =~= old(self).events@);
        }
        r
    }

    /// A borrowed look at the events of the most recent pass, without
    /// consuming them.
    pub fn get_events(&self) -> (r: &Vec<CollisionEvent>)
        ensures
            r@ == self.events@,
    {
        &self.events
    }

    /// The bounding box spanned by `hitbox` around `pos`: its centre is the
    /// position plus the offset, and each side lies half the extent away.
    /// The extents must be even for the halves to be whole world units.
    pub fn get_aabb_bounds(&self, pos: &Position, hitbox: &Hitbox) -> (r: Aabb)
        requires
            hitbox_wf(*hitbox),
            hitbox.size[0] % 2 == 0,
            hitbox.size[1] % 2 == 0,
            2 * (i64::MIN as int) <= spec_left2(*pos, *hitbox),
            spec_right2(*pos, *hitbox) <= 2 * (i64::MAX as int),
            2 * (i64::MIN as int) <= spec_top2(*pos, *hitbox),
            spec_bottom2(*pos, *hitbox) <= 2 * (i64::MAX as int),
        ensures
            2 * r.left == spec_left2(*pos, *hitbox),
            2 * r.right == spec_right2(*pos, *hitbox),
            2 * r.top == spec_top2(*pos, *hitbox),
            2 * r.bottom == spec_bottom2(*pos, *hitbox),
    {
        let center_x: i128 = pos.x as i128 + hitbox.offset[0] as i128;
        let center_y: i128 = pos.y as i128 + hitbox.offset[1] as i128;
        let half_width: i128 = hitbox.size[0] as i128 / 2;
        let half_height: i128 = hitbox.size[1] as i128 / 2;
        Aabb {
            left: (center_x - half_width) as i64,
            right: (center_x + half_width) as i64,
            top: (center_y - half_height) as i64,
            bottom: (center_y + half_height) as i64,
        }
    }
}

} // verus!
