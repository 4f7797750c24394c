//! The world store: sparse per-component tables keyed by entity id.
//!
//! Entity ids are handed out by a monotonic counter starting at 0 and are
//! never reused. An id "exists" only implicitly, by appearing in some
//! component table; components may be attached to any id.

use vstd::prelude::*;
use crate::components::{Controllable, EntityId, Hitbox, InputState, Position, Render};
use crate::movement::{moved_position, moved_positions_map, step_position};
use crate::table::{ComponentTable, keys_sorted, lemma_key_index};

verus! {

/// The world store. Each component kind has its own sparse table.
pub struct EntityManager {
    next_entity_id: EntityId,
    entities: Vec<EntityId>,
    positions: ComponentTable<Position>,
    renders: ComponentTable<Render>,
    controllables: ComponentTable<Controllable>,
    hitboxes: ComponentTable<Hitbox>,
}

impl EntityManager {
    /// The id the next created entity will get.
    pub closed spec fn next_id(&self) -> EntityId {
        self.next_entity_id
    }

    /// The ids created so far, in creation order.
    pub closed spec fn entity_seq(&self) -> Seq<EntityId> {
        self.entities@
    }

    /// The position components, as a map from id to position.
    pub closed spec fn positions(&self) -> Map<EntityId, Position> {
        self.positions.contents()
    }

    /// The render components, as a map from id to render.
    pub closed spec fn renders(&self) -> Map<EntityId, Render> {
        self.renders.contents()
    }

    /// The controllable components, as a map from id to controllable.
    pub closed spec fn controllables(&self) -> Map<EntityId, Controllable> {
        self.controllables.contents()
    }

    /// The hitbox components, as a map from id to hitbox.
    pub closed spec fn hitboxes(&self) -> Map<EntityId, Hitbox> {
        self.hitboxes.contents()
    }

    /// The store keeps every table sorted, and the created ids are exactly
    /// `0 .. next_id`, in order.
    pub closed spec fn wf(&self) -> bool {
        &&& self.positions.wf()
        &&& self.renders.wf()
        &&& self.controllables.wf()
        &&& self.hitboxes.wf()
        &&& self.entities@ == Seq::new(self.next_entity_id as nat, |i: int| i as EntityId)
    }

    /// An empty world: no entities, no components, ids starting at 0.
    pub fn new() -> (r: Self)
        ensures
            r.wf(),
            r.next_id() == 0,
            r.entity_seq() =~= Seq::<EntityId>::empty(),
            r.positions() =~= Map::<EntityId, Position>::empty(),
            r.renders() =~= Map::<EntityId, Render>::empty(),
            r.controllables() =~= Map::<EntityId, Controllable>::empty(),
            r.hitboxes() =~= Map::<EntityId, Hitbox>::empty(),
    {
        let r = EntityManager {
            next_entity_id: 0,
            entities: Vec::new(),
            positions: ComponentTable::new(),
            renders: ComponentTable::new(),
            controllables: ComponentTable::new(),
            hitboxes: ComponentTable::new(),
        };
        proof {
            assert(r.entities@ =~= Seq::new(0nat, |i: int| i as EntityId));
        }
        r
    }

    /// The id the next created entity will get.
    pub fn next_entity_id(&self) -> (r: EntityId)
        ensures
            r == self.next_id(),
    {
        self.next_entity_id
    }

    /// Hand out the next id. Ids start at 0, go up by 1 per call, and are
    /// never reused.
    pub fn create_entity(&mut self) -> (r: EntityId)
        requires
            old(self).wf(),
            old(self).next_id() < EntityId::MAX,
        ensures
            final(self).wf(),
            r == old(self).next_id(),
            final(self).next_id() == old(self).next_id() + 1,
            final(self).entity_seq() == old(self).entity_seq().push(r),
            final(self).positions() == old(self).positions(),
            final(self).renders() == old(self).renders(),
            final(self).controllables() == old(self).controllables(),
            final(self).hitboxes() == old(self).hitboxes(),
    {
        let id = self.next_entity_id;
        self.next_entity_id = self.next_entity_id + 1;
        self.entities.push(id);
        proof {
            assert(self.entities@ =~= Seq::new(self.next_entity_id as nat, |i: int| i as EntityId));
        }
        id
    }

    /// Attach (or overwrite) the position of `entity`.
    pub fn add_position(&mut self, entity: EntityId, position: Position)
        requires
            old(self).wf(),
        ensures
            final(self).wf(),
            final(self).positions() =~= old(self).positions().insert(entity, position),
            final(self).renders() == old(self).renders(),
            final(self).controllables() == old(self).controllables(),
            final(self).hitboxes() == old(self).hitboxes(),
            final(self).entity_seq() == old(self).entity_seq(),
            final(self).next_id() == old(self).next_id(),
    {
        self.positions.insert(entity, position);
    }

    /// Attach (or overwrite) the render component of `entity`.
    pub fn add_render(&mut self, entity: EntityId, render: Render)
        requires
            old(self).wf(),
        ensures
            final(self).wf(),
            final(self).renders() =~= old(self).renders().insert(entity, render),
            final(self).positions() == old(self).positions(),
            final(self).controllables() == old(self).controllables(),
            final(self).hitboxes() == old(self).hitboxes(),
            final(self).entity_seq() == old(self).entity_seq(),
            final(self).next_id() == old(self).next_id(),
    {
        self.renders.insert(entity, render);
    }

    /// Attach (or overwrite) the controllable component of `entity`.
    pub fn add_controllable(&mut self, entity: EntityId, controllable: Controllable)
        requires
            old(self).wf(),
        ensures
            final(self).wf(),
            final(self).controllables() =~= old(self).controllables().insert(entity, controllable),
            final(self).positions() == old(self).positions(),
            final(self).renders() == old(self).renders(),
            final(self).hitboxes() == old(self).hitboxes(),
            final(self).entity_seq() == old(self).entity_seq(),
            final(self).next_id() == old(self).next_id(),
    {
        self.controllables.insert(entity, controllable);
    }

    /// Detach the controllable component of `entity`, where it has one.
    pub fn remove_controllable(&mut self, entity: EntityId)
        requires
            old(self).wf(),
        ensures
            final(self).wf(),
            final(self).controllables() =~= old(self).controllables().remove(entity),
            final(self).positions() == old(self).positions(),
            final(self).renders() == old(self).renders(),
            final(self).hitboxes() == old(self).hitboxes(),
            final(self).entity_seq() == old(self).entity_seq(),
            final(self).next_id() == old(self).next_id(),
    {
        let _ = self.controllables.remove(entity);
    }

    /// Attach (or overwrite) the hitbox of `entity`.
    pub fn add_hitbox(&mut self, entity: EntityId, hitbox: Hitbox)
        requires
            old(self).wf(),
        ensures
            final(self).wf(),
            final(self).hitboxes() =~= old(self).hitboxes().insert(entity, hitbox),
            final(self).positions() == old(self).positions(),
            final(self).renders() == old(self).renders(),
            final(self).controllables() == old(self).controllables(),
            final(self).entity_seq() == old(self).entity_seq(),
            final(self).next_id() == old(self).next_id(),
    {
        self.hitboxes.insert(entity, hitbox);
    }

    /// The position of `entity`, where it has one.
    pub fn get_position(&self, entity: EntityId) -> (r: Option<Position>)
        requires
            self.wf(),
        ensures
            match r {
                Some(p) => self.positions().contains_key(entity) && p == self.positions()[entity],
                None => !self.positions().contains_key(entity),
            },
    {
        match self.positions.get(entity) {
            Some(p) => Some(*p),
            None => None,
        }
    }

    /// Move `entity` to `position`, where it already has a position.
    /// Reports whether it did.
    pub fn set_position(&mut self, entity: EntityId, position: Position) -> (r: bool)
        requires
            old(self).wf(),
        ensures
            final(self).wf(),
            r == old(self).positions().contains_key(entity),
            r ==> final(self).positions() =~= old(self).positions().insert(entity, position),
            !r ==> final(self).positions() == old(self).positions(),
            final(self).renders() == old(self).renders(),
            final(self).controllables() == old(self).controllables(),
            final(self).hitboxes() == old(self).hitboxes(),
            final(self).entity_seq() == old(self).entity_seq(),
            final(self).next_id() == old(self).next_id(),
    {
        if self.positions.contains_key(entity) {
            self.positions.insert(entity, position);
            true
        } else {
            false
        }
    }

    /// Repaint the render component of `entity`, where it has one.
    /// Reports whether it did.
    pub fn set_entity_color(&mut self, entity: EntityId, color: [u8; 3]) -> (r: bool)
        requires
            old(self).wf(),
        ensures
            final(self).wf(),
            r == old(self).renders().contains_key(entity),
            r ==> final(self).renders() =~= old(self).renders().insert(
                entity,
                Render { color, ..old(self).renders()[entity] },
            ),
            !r ==> final(self).renders() == old(self).renders(),
            final(self).positions() == old(self).positions(),
            final(self).controllables() == old(self).controllables(),
            final(self).hitboxes() == old(self).hitboxes(),
            final(self).entity_seq() == old(self).entity_seq(),
            final(self).next_id() == old(self).next_id(),
    {
        match self.renders.get(entity) {
            Some(render) => {
                let updated = Render { color, ..*render };
                self.renders.insert(entity, updated);
                true
            },
            None => false,
        }
    }

    /// The entities that both have a position and are rendered, with their
    /// components, sorted ascending by id. Draw order is creation order:
    /// later-created entities draw on top.
    pub fn get_entities_with_render(&self) -> (out: Vec<(EntityId, Position, Render)>)
        requires
            self.wf(),
        ensures
            forall|i: int, j: int| #![trigger out@[i], out@[j]]
                0 <= i < j < out@.len() ==> out@[i].0 < out@[j].0,
            forall|i: int| #![trigger out@[i]]
                0 <= i < out@.len() ==> {
                    &&& self.positions().contains_key(out@[i].0)
                    &&& self.renders().contains_key(out@[i].0)
                    &&& out@[i].1 == self.positions()[out@[i].0]
                    &&& out@[i].2 == self.renders()[out@[i].0]
                },
            forall|k: EntityId|
                self.positions().contains_key(k) && self.renders().contains_key(k)
                    ==> exists|i: int| 0 <= i < out@.len() && (#[trigger] out@[i]).0 == k,
    {
        join_with_positions(&self.positions, &self.renders)
    }

    /// The entities that both have a position and are controllable, with
    /// their components, sorted ascending by id.
    pub fn get_controllable_entities(&self) -> (out: Vec<(EntityId, Position, Controllable)>)
        requires
            self.wf(),
        ensures
            forall|i: int, j: int| #![trigger out@[i], out@[j]]
                0 <= i < j < out@.len() ==> out@[i].0 < out@[j].0,
            forall|i: int| #![trigger out@[i]]
                0 <= i < out@.len() ==> {
                    &&& self.positions().contains_key(out@[i].0)
                    &&& self.controllables().contains_key(out@[i].0)
                    &&& out@[i].1 == self.positions()[out@[i].0]
                    &&& out@[i].2 == self.controllables()[out@[i].0]
                },
            forall|k: EntityId|
                self.positions().contains_key(k) && self.controllables().contains_key(k)
                    ==> exists|i: int| 0 <= i < out@.len() && (#[trigger] out@[i]).0 == k,
    {
        join_with_positions(&self.positions, &self.controllables)
    }

    /// The entities that both have a position and a hitbox (active or not),
    /// with their components, sorted ascending by id.
    pub fn get_entities_with_hitbox(&self) -> (out: Vec<(EntityId, Position, Hitbox)>)
        requires
            self.wf(),
        ensures
            forall|i: int, j: int| #![trigger out@[i], out@[j]]
                0 <= i < j < out@.len() ==> out@[i].0 < out@[j].0,
            forall|i: int| #![trigger out@[i]]
                0 <= i < out@.len() ==> {
                    &&& self.positions().contains_key(out@[i].0)
                    &&& self.hitboxes().contains_key(out@[i].0)
                    &&& out@[i].1 == self.positions()[out@[i].0]
                    &&& out@[i].2 == self.hitboxes()[out@[i].0]
                },
            forall|k: EntityId|
                self.positions().contains_key(k) && self.hitboxes().contains_key(k)
                    ==> exists|i: int| 0 <= i < out@.len() && (#[trigger] out@[i]).0 == k,
    {
        join_with_positions(&self.positions, &self.hitboxes)
    }

    /// One movement pass: every entity with both a position and a
    /// controllable moves to its `moved_position`; everything else stays.
    pub fn apply_movement(&mut self, input: &InputState, delta_millis: u64)
        requires
            old(self).wf(),
        ensures
            final(self).wf(),
            final(self).positions() =~= moved_positions_map(
                old(self).positions(),
                old(self).controllables(),
                *input,
                delta_millis,
            ),
            final(self).renders() == old(self).renders(),
            final(self).controllables() == old(self).controllables(),
            final(self).hitboxes() == old(self).hitboxes(),
            final(self).entity_seq() == old(self).entity_seq(),
            final(self).next_id() == old(self).next_id(),
    {
        let ghost old_pos = old(self).positions.contents();
        let ghost ctrl = old(self).controllables.contents();
        let ghost cseq = self.controllables.pairs_seq();
        let n = self.controllables.len();
        let mut idx: usize = 0;
        while idx < n
            invariant
                self.controllables == old(self).controllables,
                self.renders == old(self).renders,
                self.hitboxes == old(self).hitboxes,
                self.entities == old(self).entities,
                self.next_entity_id == old(self).next_entity_id,
                old(self).wf(),
                cseq == self.controllables.pairs_seq(),
                ctrl == self.controllables.contents(),
                old_pos == old(self).positions.contents(),
                n == cseq.len(),
                idx <= n,
                self.positions.wf(),
                forall|k: EntityId| #[trigger] self.positions.contents().contains_key(k)
                    <==> old_pos.contains_key(k),
                forall|k: EntityId| #[trigger] old_pos.contains_key(k)
                    ==> self.positions.contents()[k] == (
                        if exists|j: int| 0 <= j < idx && (#[trigger] cseq[j]).0 == k {
                            moved_position(old_pos[k], ctrl[k], *input, delta_millis)
                        } else {
                            old_pos[k]
                        }),
            decreases n - idx,
        {
            let k = self.controllables.key_at(idx);
            let c: Controllable = *self.controllables.value_at(idx);
            proof {
                lemma_key_index(cseq, idx as int);
                assert(ctrl.contains_key(k) && ctrl[k] == c);
                assert forall|j: int| 0 <= j < idx implies (#[trigger] cseq[j]).0 != k by {
                    assert(cseq[j].0 < cseq[idx as int].0);
                }
            }
            match self.positions.get(k) {
                Some(p) => {
                    let cur: Position = *p;
                    proof {
                        assert(cur == old_pos[k]);
                    }
                    let moved = step_position(cur, c, input, delta_millis);
                    self.positions.insert(k, moved);
                    proof {
                        assert forall|k2: EntityId| #[trigger] old_pos.contains_key(k2)
                            implies self.positions.contents()[k2] == (
                                if exists|j: int| 0 <= j < idx + 1 && (#[trigger] cseq[j]).0 == k2 {
                                    moved_position(old_pos[k2], ctrl[k2], *input, delta_millis)
                                } else {
                                    old_pos[k2]
                                }) by {
                            if k2 == k {
                                assert(cseq[idx as int].0 == k2);
                            } else {
                                if exists|j: int| 0 <= j < idx + 1 && (#[trigger] cseq[j]).0 == k2 {
                                    let j = choose|j: int| 0 <= j < idx + 1 && (#[trigger] cseq[j]).0 == k2;
                                    assert(j != idx);
                                    assert(0 <= j < idx && cseq[j].0 == k2);
                                }
                            }
                        }
                    }
                },
                None => {
                    proof {
                        assert forall|k2: EntityId| #[trigger] old_pos.contains_key(k2)
                            implies self.positions.contents()[k2] == (
                                if exists|j: int| 0 <= j < idx + 1 && (#[trigger] cseq[j]).0 == k2 {
                                    moved_position(old_pos[k2], ctrl[k2], *input, delta_millis)
                                } else {
                                    old_pos[k2]
                                }) by {
                            if exists|j: int| 0 <= j < idx + 1 && (#[trigger] cseq[j]).0 == k2 {
                                let j = choose|j: int| 0 <= j < idx + 1 && (#[trigger] cseq[j]).0 == k2;
                                if j == idx {
                                    assert(cseq[idx as int].0 == k);
                                    assert(!old_pos.contains_key(k2));
                                } else {
                                    assert(0 <= j < idx && cseq[j].0 == k2);
                                }
                            }
                        }
                    }
                },
            }
            idx = idx + 1;
        }
        proof {
            assert forall|k: EntityId| #[trigger] ctrl.contains_key(k)
                implies exists|j: int| 0 <= j < n && (#[trigger] cseq[j]).0 == k by {
                assert(crate::table::has_key(cseq, k));
            }
            assert(self.positions.contents() =~= moved_positions_map(
                old_pos,
                ctrl,
                *input,
                delta_millis,
            ));
        }
    }
}

/// Inner join of a component table with the position table: the entities
/// carrying both, with their components, sorted ascending by id.
#[verifier::rlimit(60)]
fn join_with_positions<V: Copy>(
    positions: &ComponentTable<Position>,
    table: &ComponentTable<V>,
) -> (out: Vec<(EntityId, Position, V)>)
    requires
        positions.wf(),
        table.wf(),
    ensures
        forall|i: int, j: int| #![trigger out@[i], out@[j]]
            0 <= i < j < out@.len() ==> out@[i].0 < out@[j].0,
        forall|i: int| #![trigger out@[i]]
            0 <= i < out@.len() ==> {
                &&& positions.contents().contains_key(out@[i].0)
                &&& table.contents().contains_key(out@[i].0)
                &&& out@[i].1 == positions.contents()[out@[i].0]
                &&& out@[i].2 == table.contents()[out@[i].0]
            },
        forall|k: EntityId|
            positions.contents().contains_key(k) && table.contents().contains_key(k)
                ==> exists|i: int| 0 <= i < out@.len() && (#[trigger] out@[i]).0 == k,
{
    let ghost tseq = table.pairs_seq();
    let mut out: Vec<(EntityId, Position, V)> = Vec::new();
    let n = table.len();
    let mut idx: usize = 0;
    while idx < n
        invariant
            positions.wf(),
            table.wf(),
            tseq == table.pairs_seq(),
            n == tseq.len(),
            idx <= n,
            forall|i: int, j: int| #![trigger out@[i], out@[j]]
                0 <= i < j < out@.len() ==> out@[i].0 < out@[j].0,
            forall|i: int| #![trigger out@[i]]
                0 <= i < out@.len() ==> {
                    &&& positions.contents().contains_key(out@[i].0)
                    &&& table.contents().contains_key(out@[i].0)
                    &&& out@[i].1 == positions.contents()[out@[i].0]
                    &&& out@[i].2 == table.contents()[out@[i].0]
                },
            forall|i: int| 0 <= i < out@.len()
                ==> exists|j: int| 0 <= j < idx && (#[trigger] tseq[j]).0 == (#[trigger] out@[i]).0,
            forall|j: int| 0 <= j < idx
                ==> (positions.contents().contains_key((#[trigger] tseq[j]).0)
                    ==> exists|i: int| 0 <= i < out@.len() && (#[trigger] out@[i]).0 == tseq[j].0),
        decreases n - idx,
    {
        let k = table.key_at(idx);
        let v: V = *table.value_at(idx);
        proof {
            lemma_key_index(tseq, idx as int);
        }
        let ghost prev = out@;
        match positions.get(k) {
            Some(p) => {
                let pc: Position = *p;
                proof {
                    assert forall|i: int| 0 <= i < out@.len() implies (#[trigger] out@[i]).0 < k by {
                        let j = choose|j: int| 0 <= j < idx && (#[trigger] tseq[j]).0 == out@[i].0;
                        assert(tseq[j].0 < tseq[idx as int].0);
                    }
                }
                out.push((k, pc, v));
                proof {
                    assert forall|j: int|
                        0 <= j < idx + 1 && positions.contents().contains_key(
                            (#[trigger] tseq[j]).0,
                        ) implies exists|i: int|
                        0 <= i < out@.len() && (#[trigger] out@[i]).0 == tseq[j].0 by {
                        if j == idx {
                            assert(out@[out@.len() - 1].0 == tseq[j].0);
                        } else {
                            let i = choose|i: int|
                                0 <= i < prev.len() && (#[trigger] prev[i]).0 == tseq[j].0;
                            assert(out@[i].0 == tseq[j].0);
                        }
                    }
                }
            },
            None => {
                proof {
                    assert forall|j: int|
                        0 <= j < idx + 1 && positions.contents().contains_key(
                            (#[trigger] tseq[j]).0,
                        ) implies exists|i: int|
                        0 <= i < out@.len() && (#[trigger] out@[i]).0 == tseq[j].0 by {
                        if j == idx {
                            assert(!positions.contents().contains_key(k));
                        } else {
                            let i = choose|i: int|
                                0 <= i < prev.len() && (#[trigger] prev[i]).0 == tseq[j].0;
                            assert(out@[i].0 == tseq[j].0);
                        }
                    }
                }
            },
        }
        idx = idx + 1;
    }
    proof {
        assert forall|k: EntityId|
            positions.contents().contains_key(k) && table.contents().contains_key(k)
            implies exists|i: int| 0 <= i < out@.len() && (#[trigger] out@[i]).0 == k by {
            assert(crate::table::has_key(tseq, k));
            let j = choose|j: int| 0 <= j < tseq.len() && (#[trigger] tseq[j]).0 == k;
        }
    }
    out
}

/// Created entity ids are exactly `0, 1, 2, ...` in creation order, so no
/// id is ever reused.
pub proof fn lemma_entity_ids_are_creation_order(em: &EntityManager)
    requires
        em.wf(),
    ensures
        em.entity_seq().len() == em.next_id(),
        forall|i: int| 0 <= i < em.entity_seq().len() ==> #[trigger] em.entity_seq()[i] == i as EntityId,
        forall|i: int, j: int| 0 <= i < j < em.entity_seq().len()
            ==> em.entity_seq()[i] != em.entity_seq()[j],
{
    assert(forall|i: int| 0 <= i < em.entity_seq().len()
        ==> #[trigger] em.entity_seq()[i] == i as EntityId);
}

} // verus!
