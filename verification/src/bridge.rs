//! The shared-state bridge: one context value owns every subsystem slot,
//! and a narrow surface of operations on plain values reaches them. Both
//! the native per-frame loop and the script environment go through these
//! operations, so neither ever holds a reference into the state.
//!
//! Every slot starts empty and is filled by an explicit init step. An
//! operation on an empty slot degrades to a safe default — `false`, `0`
//! or an empty list — rather than failing: the surface favours
//! availability over strict error signalling.

use vstd::prelude::*;
use crate::collision::{CollisionEvent, CollisionSystem, detector_pass, poll_transition};
use crate::components::{
    BoundsType, Controllable, EntityId, Hitbox, InputState, InputType, Position, Render,
    RenderShape,
};
use crate::entity_manager::EntityManager;
use crate::frame_limiter::FrameLimiter;
use crate::game_clock::{EventId, GameClock, GameEvent, spec_due_count, spec_insert, spec_requeue};
use crate::game_timer::{GameTimer, spec_sat_sub};
use crate::movement::moved_positions_map;
use crate::stats::StatsCollector;
use crate::ui::{TextOptions, UISystem, spec_alignment_view, spec_font_size, spec_text_color};

verus! {

/// The target rate reported when no frame limiter has been set up.
pub const FALLBACK_TARGET_FPS: u32 = 60;

/// One process-wide context: each subsystem lives in its own slot, empty
/// until an init step fills it.
pub struct EngineContext {
    world: Option<EntityManager>,
    collision: Option<CollisionSystem>,
    ui: Option<UISystem>,
    clock: Option<GameClock>,
    timer: Option<GameTimer>,
    stats: Option<StatsCollector>,
    limiter: Option<FrameLimiter>,
}

/// Whether the two contexts hold the same timing state: clock, timer,
/// stats and limiter slots.
pub open spec fn same_timing(a: &EngineContext, b: &EngineContext) -> bool {
    &&& a.clock() == b.clock()
    &&& a.timer() == b.timer()
    &&& a.stats() == b.stats()
    &&& a.limiter() == b.limiter()
}

/// Whether the two contexts hold the same scene state: world, collision
/// and ui slots.
pub open spec fn same_scene(a: &EngineContext, b: &EngineContext) -> bool {
    &&& a.world() == b.world()
    &&& a.collision() == b.collision()
    &&& a.ui() == b.ui()
}

/// Whether the world `w2` is `w` with nothing changed but its positions.
pub open spec fn world_same_but_positions(w: &EntityManager, w2: &EntityManager) -> bool {
    &&& w2.renders() == w.renders()
    &&& w2.controllables() == w.controllables()
    &&& w2.hitboxes() == w.hitboxes()
    &&& w2.entity_seq() == w.entity_seq()
    &&& w2.next_id() == w.next_id()
}

impl EngineContext {
    /// The world slot.
    pub closed spec fn world(&self) -> Option<EntityManager> {
        self.world
    }

    /// The collision-detector slot.
    pub closed spec fn collision(&self) -> Option<CollisionSystem> {
        self.collision
    }

    /// The ui slot.
    pub closed spec fn ui(&self) -> Option<UISystem> {
        self.ui
    }

    /// The game-clock slot.
    pub closed spec fn clock(&self) -> Option<GameClock> {
        self.clock
    }

    /// The game-timer slot.
    pub closed spec fn timer(&self) -> Option<GameTimer> {
        self.timer
    }

    /// The stats-collector slot.
    pub closed spec fn stats(&self) -> Option<StatsCollector> {
        self.stats
    }

    /// The frame-limiter slot.
    pub closed spec fn limiter(&self) -> Option<FrameLimiter> {
        self.limiter
    }

    /// Every filled slot holds a well-formed subsystem.
    pub open spec fn wf(&self) -> bool {
        &&& match self.world() {
            Some(w) => w.wf(),
            None => true,
        }
        &&& match self.clock() {
            Some(c) => c.wf(),
            None => true,
        }
        &&& match self.ui() {
            Some(u) => u.wf(),
            None => true,
        }
        &&& match self.stats() {
            Some(s) => s.wf(),
            None => true,
        }
    }

    /// A context with every slot empty.
    pub fn new() -> (r: Self)
        ensures
            r.wf(),
            r.world() is None,
            r.collision() is None,
            r.ui() is None,
            r.clock() is None,
            r.timer() is None,
            r.stats() is None,
            r.limiter() is None,
    {
        EngineContext {
            world: None,
            collision: None,
            ui: None,
            clock: None,
            timer: None,
            stats: None,
            limiter: None,
        }
    }

    /// Fill the world, collision and ui slots with fresh subsystems,
    /// replacing whatever they held.
    pub fn init_world(&mut self) -> (r: bool)
        requires
            old(self).wf(),
        ensures
            final(self).wf(),
            r,
            final(self).world() matches Some(w) && w.next_id() == 0
                && w.positions() =~= Map::<EntityId, Position>::empty()
                && w.renders() =~= Map::<EntityId, Render>::empty()
                && w.controllables() =~= Map::<EntityId, Controllable>::empty()
                && w.hitboxes() =~= Map::<EntityId, Hitbox>::empty()
                && w.entity_seq() =~= Seq::<EntityId>::empty(),
            final(self).collision() matches Some(c) && c.events@ =~= Seq::<
                CollisionEvent,
            >::empty(),
            final(self).ui() matches Some(u) && u.elements() =~= Seq::<
                crate::ui::UiElement,
            >::empty() && u.next_id() == 1,
            same_timing(old(self), final(self)),
    {
        self.world = Some(EntityManager::new());
        self.collision = Some(CollisionSystem::new());
        self.ui = Some(UISystem::new());
        true
    }

    /// Create an entity and return its id. Returns the 0 sentinel when
    /// the world is not initialised — callers cannot tell that apart from
    /// the first entity, a quirk the surface keeps — or when the id space
    /// is exhausted.
    pub fn create_entity(&mut self) -> (r: EntityId)
        requires
            old(self).wf(),
        ensures
            final(self).wf(),
            old(self).world() is None ==> r == 0 && *final(self) == *old(self),
            old(self).world() matches Some(w) ==> {
                &&& same_timing(old(self), final(self))
                &&& final(self).collision() == old(self).collision()
                &&& final(self).ui() == old(self).ui()
                &&& if w.next_id() < EntityId::MAX {
                    &&& r == w.next_id()
                    &&& final(self).world() matches Some(w2)
                    &&& w2.next_id() == w.next_id() + 1
                    &&& w2.entity_seq() == w.entity_seq().push(r)
                    &&& w2.positions() == w.positions()
                    &&& w2.renders() == w.renders()
                    &&& w2.controllables() == w.controllables()
                    &&& w2.hitboxes() == w.hitboxes()
                } else {
                    r == 0 && final(self).world() == old(self).world()
                }
            },
    {
        match self.world.take() {
            Some(mut w) => {
                if w.next_entity_id() < EntityId::MAX {
                    let id = w.create_entity();
                    self.world = Some(w);
                    id
                } else {
                    self.world = Some(w);
                    0
                }
            },
            None => 0,
        }
    }

    /// Attach (or overwrite) a position. Reports whether the world was
    /// there to take it.
    pub fn add_position(&mut self, entity: EntityId, x: i64, y: i64) -> (r: bool)
        requires
            old(self).wf(),
        ensures
            final(self).wf(),
            r == (old(self).world() is Some),
            old(self).world() is None ==> *final(self) == *old(self),
            old(self).world() matches Some(w) ==> {
                &&& same_timing(old(self), final(self))
                &&& final(self).collision() == old(self).collision()
                &&& final(self).ui() == old(self).ui()
                &&& final(self).world() matches Some(w2)
                &&& w2.positions() == w.positions().insert(entity, Position { x, y })
                &&& world_same_but_positions(&w, &w2)
            },
    {
        match self.world.take() {
            Some(mut w) => {
                w.add_position(entity, Position { x, y });
                self.world = Some(w);
                true
            },
            None => false,
        }
    }

    /// Attach (or overwrite) a render component. Reports whether the
    /// world was there to take it.
    pub fn add_render(
        &mut self,
        entity: EntityId,
        width: i64,
        height: i64,
        color: [u8; 3],
        shape: RenderShape,
    ) -> (r: bool)
        requires
            old(self).wf(),
        ensures
            final(self).wf(),
            r == (old(self).world() is Some),
            old(self).world() is None ==> *final(self) == *old(self),
            old(self).world() matches Some(w) ==> {
                &&& same_timing(old(self), final(self))
                &&& final(self).collision() == old(self).collision()
                &&& final(self).ui() == old(self).ui()
                &&& final(self).world() matches Some(w2)
                &&& w2.renders() == w.renders().insert(
                    entity,
                    Render { width, height, color, shape },
                )
                &&& w2.positions() == w.positions()
                &&& w2.controllables() == w.controllables()
                &&& w2.hitboxes() == w.hitboxes()
                &&& w2.entity_seq() == w.entity_seq()
                &&& w2.next_id() == w.next_id()
            },
    {
        match self.world.take() {
            Some(mut w) => {
                w.add_render(entity, Render { width, height, color, shape });
                self.world = Some(w);
                true
            },
            None => false,
        }
    }

    /// Attach (or overwrite) a controllable component. Reports whether
    /// the world was there to take it.
    pub fn add_controllable(
        &mut self,
        entity: EntityId,
        movement_speed: u64,
        input_type: InputType,
        bounds: BoundsType,
    ) -> (r: bool)
        requires
            old(self).wf(),
        ensures
            final(self).wf(),
            r == (old(self).world() is Some),
            old(self).world() is None ==> *final(self) == *old(self),
            old(self).world() matches Some(w) ==> {
                &&& same_timing(old(self), final(self))
                &&& final(self).collision() == old(self).collision()
                &&& final(self).ui() == old(self).ui()
                &&& final(self).world() matches Some(w2)
                &&& w2.controllables() == w.controllables().insert(
                    entity,
                    Controllable { movement_speed, input_type, bounds },
                )
                &&& w2.positions() == w.positions()
                &&& w2.renders() == w.renders()
                &&& w2.hitboxes() == w.hitboxes()
                &&& w2.entity_seq() == w.entity_seq()
                &&& w2.next_id() == w.next_id()
            },
    {
        match self.world.take() {
            Some(mut w) => {
                w.add_controllable(entity, Controllable { movement_speed, input_type, bounds });
                self.world = Some(w);
                true
            },
            None => false,
        }
    }

    /// Detach the controllable component of `entity`, where it has one.
    /// Reports whether the world was there, whether or not the entity was
    /// controllable.
    pub fn remove_controllable(&mut self, entity: EntityId) -> (r: bool)
        requires
            old(self).wf(),
        ensures
            final(self).wf(),
            r == (old(self).world() is Some),
            old(self).world() is None ==> *final(self) == *old(self),
            old(self).world() matches Some(w) ==> {
                &&& same_timing(old(self), final(self))
                &&& final(self).collision() == old(self).collision()
                &&& final(self).ui() == old(self).ui()
                &&& final(self).world() matches Some(w2)
                &&& w2.controllables() == w.controllables().remove(entity)
                &&& w2.positions() == w.positions()
                &&& w2.renders() == w.renders()
                &&& w2.hitboxes() == w.hitboxes()
                &&& w2.entity_seq() == w.entity_seq()
                &&& w2.next_id() == w.next_id()
            },
    {
        match self.world.take() {
            Some(mut w) => {
                w.remove_controllable(entity);
                self.world = Some(w);
                true
            },
            None => false,
        }
    }

    /// Attach (or overwrite) a hitbox, always created active; absent
    /// offsets and layer default to 0. Reports whether the world was
    /// there to take it.
    pub fn add_hitbox(
        &mut self,
        entity: EntityId,
        width: i64,
        height: i64,
        offset_x: Option<i64>,
        offset_y: Option<i64>,
        layer: Option<u32>,
    ) -> (r: bool)
        requires
            old(self).wf(),
        ensures
            final(self).wf(),
            r == (old(self).world() is Some),
            old(self).world() is None ==> *final(self) == *old(self),
            old(self).world() matches Some(w) ==> {
                &&& same_timing(old(self), final(self))
                &&& final(self).collision() == old(self).collision()
                &&& final(self).ui() == old(self).ui()
                &&& final(self).world() matches Some(w2)
                &&& w2.hitboxes() == w.hitboxes().insert(
                    entity,
                    Hitbox {
                        size: [width, height],
                        offset: [
                            match offset_x {
                                Some(ox) => ox,
                                None => 0,
                            },
                            match offset_y {
                                Some(oy) => oy,
                                None => 0,
                            },
                        ],
                        layer: match layer {
                            Some(l) => l,
                            None => 0,
                        },
                        active: true,
                    },
                )
                &&& w2.positions() == w.positions()
                &&& w2.renders() == w.renders()
                &&& w2.controllables() == w.controllables()
                &&& w2.entity_seq() == w.entity_seq()
                &&& w2.next_id() == w.next_id()
            },
    {
        match self.world.take() {
            Some(mut w) => {
                let ox = match offset_x {
                    Some(ox) => ox,
                    None => 0,
                };
                let oy = match offset_y {
                    Some(oy) => oy,
                    None => 0,
                };
                let l = match layer {
                    Some(l) => l,
                    None => 0,
                };
                let hitbox = Hitbox {
                    size: [width, height],
                    offset: [ox, oy],
                    layer: l,
                    active: true,
                };
                proof {
                    assert(hitbox.size =~= [width, height]);
                    assert(hitbox.offset =~= [
                        match offset_x {
                            Some(ox2) => ox2,
                            None => 0i64,
                        },
                        match offset_y {
                            Some(oy2) => oy2,
                            None => 0i64,
                        },
                    ]);
                }
                w.add_hitbox(entity, hitbox);
                self.world = Some(w);
                true
            },
            None => false,
        }
    }

    /// Repaint the render component of `entity`. Reports whether the
    /// world was there and the entity had one.
    pub fn set_entity_color(&mut self, entity: EntityId, red: u8, green: u8, blue: u8) -> (r: bool)
        requires
            old(self).wf(),
        ensures
            final(self).wf(),
            old(self).world() is None ==> !r && *final(self) == *old(self),
            old(self).world() matches Some(w) ==> {
                &&& same_timing(old(self), final(self))
                &&& final(self).collision() == old(self).collision()
                &&& final(self).ui() == old(self).ui()
                &&& r == w.renders().contains_key(entity)
                &&& final(self).world() matches Some(w2)
                &&& (r ==> w2.renders() == w.renders().insert(
                    entity,
                    Render { color: [red, green, blue], ..w.renders()[entity] },
                ))
                &&& (!r ==> w2.renders() == w.renders())
                &&& w2.positions() == w.positions()
                &&& w2.controllables() == w.controllables()
                &&& w2.hitboxes() == w.hitboxes()
                &&& w2.entity_seq() == w.entity_seq()
                &&& w2.next_id() == w.next_id()
            },
    {
        match self.world.take() {
            Some(mut w) => {
                let r = w.set_entity_color(entity, [red, green, blue]);
                self.world = Some(w);
                r
            },
            None => false,
        }
    }

    /// Move `entity` to `(x, y)`. Reports whether the world was there and
    /// the entity already had a position.
    pub fn set_entity_position(&mut self, entity: EntityId, x: i64, y: i64) -> (r: bool)
        requires
            old(self).wf(),
        ensures
            final(self).wf(),
            old(self).world() is None ==> !r && *final(self) == *old(self),
            old(self).world() matches Some(w) ==> {
                &&& same_timing(old(self), final(self))
                &&& final(self).collision() == old(self).collision()
                &&& final(self).ui() == old(self).ui()
                &&& r == w.positions().contains_key(entity)
                &&& final(self).world() matches Some(w2)
                &&& (r ==> w2.positions() == w.positions().insert(entity, Position { x, y }))
                &&& (!r ==> w2.positions() == w.positions())
                &&& world_same_but_positions(&w, &w2)
            },
    {
        match self.world.take() {
            Some(mut w) => {
                let r = w.set_position(entity, Position { x, y });
                self.world = Some(w);
                r
            },
            None => false,
        }
    }

    /// Hand out the collision events of the most recent detector pass and
    /// clear the list: a second poll before the next pass gets nothing.
    /// An uninitialised detector yields the empty list.
    pub fn poll_collision_events(&mut self) -> (r: Vec<CollisionEvent>)
        requires
            old(self).wf(),
        ensures
            final(self).wf(),
            old(self).collision() is None ==> r@ =~= Seq::<CollisionEvent>::empty()
                && *final(self) == *old(self),
            old(self).collision() matches Some(c) ==> {
                &&& final(self).collision() matches Some(c2)
                &&& poll_transition(c.events@, c2.events@, r@)
                &&& final(self).world() == old(self).world()
                &&& final(self).ui() == old(self).ui()
                &&& same_timing(old(self), final(self))
            },
    {
        match self.collision.take() {
            Some(mut c) => {
                let r = c.poll();
                self.collision = Some(c);
                r
            },
            None => Vec::new(),
        }
    }

    /// One collision-detector pass over the world at `now_millis`.
    /// Reports whether both the world and the detector were there.
    pub fn update_collisions(&mut self, now_millis: u64) -> (r: bool)
        requires
            old(self).wf(),
        ensures
            final(self).wf(),
            r == (old(self).world() is Some && old(self).collision() is Some),
            !r ==> *final(self) == *old(self),
            r ==> {
                &&& final(self).world() == old(self).world()
                &&& final(self).ui() == old(self).ui()
                &&& same_timing(old(self), final(self))
                &&& final(self).collision() matches Some(c2)
                &&& detector_pass(
                    old(self).world()->0.positions(),
                    old(self).world()->0.hitboxes(),
                    c2.events@,
                    now_millis,
                )
            },
    {
        let world = self.world.take();
        let detector = self.collision.take();
        match (world, detector) {
            (Some(w), Some(mut c)) => {
                c.update(&w, now_millis);
                self.world = Some(w);
                self.collision = Some(c);
                true
            },
            (w, c) => {
                self.world = w;
                self.collision = c;
                false
            },
        }
    }

    /// One movement pass over the world with the held keys and a
    /// caller-supplied delta. Reports whether the world was there.
    pub fn update_movement(&mut self, input: &InputState, delta_millis: u64) -> (r: bool)
        requires
            old(self).wf(),
        ensures
            final(self).wf(),
            r == (old(self).world() is Some),
            old(self).world() is None ==> *final(self) == *old(self),
            old(self).world() matches Some(w) ==> {
                &&& same_timing(old(self), final(self))
                &&& final(self).collision() == old(self).collision()
                &&& final(self).ui() == old(self).ui()
                &&& final(self).world() matches Some(w2)
                &&& w2.positions() =~= moved_positions_map(
                    w.positions(),
                    w.controllables(),
                    *input,
                    delta_millis,
                )
                &&& world_same_but_positions(&w, &w2)
            },
    {
        match self.world.take() {
            Some(mut w) => {
                w.apply_movement(input, delta_millis);
                self.world = Some(w);
                true
            },
            None => false,
        }
    }

    /// The render snapshot of the world: every entity with both a
    /// position and a render component, sorted ascending by id, so draw
    /// order is creation order and later-created entities draw on top.
    /// An uninitialised world yields the empty snapshot.
    pub fn get_render_snapshot(&self) -> (out: Vec<(EntityId, Position, Render)>)
        requires
            self.wf(),
        ensures
            self.world() is None ==> out@ =~= Seq::<(EntityId, Position, Render)>::empty(),
            self.world() matches Some(w) ==> {
                &&& forall|i: int, j: int| #![trigger out@[i], out@[j]]
                    0 <= i < j < out@.len() ==> out@[i].0 < out@[j].0
                &&& forall|i: int| #![trigger out@[i]]
                    0 <= i < out@.len() ==> {
                        &&& w.positions().contains_key(out@[i].0)
                        &&& w.renders().contains_key(out@[i].0)
                        &&& out@[i].1 == w.positions()[out@[i].0]
                        &&& out@[i].2 == w.renders()[out@[i].0]
                    }
                &&& forall|k: EntityId|
                    w.positions().contains_key(k) && w.renders().contains_key(k)
                        ==> exists|i: int| 0 <= i < out@.len() && (#[trigger] out@[i]).0 == k
            },
    {
        match &self.world {
            Some(w) => w.get_entities_with_render(),
            None => Vec::new(),
        }
    }

    /// Put text on screen under a fresh element id, which is returned;
    /// 0 when the ui is not initialised or its id space is exhausted.
    pub fn show_text(&mut self, text: String, x: i64, y: i64, options: Option<TextOptions>) -> (r:
        u32)
        requires
            old(self).wf(),
        ensures
            final(self).wf(),
            old(self).ui() is None ==> r == 0 && *final(self) == *old(self),
            old(self).ui() matches Some(u) ==> {
                &&& same_timing(old(self), final(self))
                &&& final(self).world() == old(self).world()
                &&& final(self).collision() == old(self).collision()
                &&& if u.next_id() < u32::MAX {
                    &&& r == u.next_id()
                    &&& final(self).ui() matches Some(u2)
                    &&& u2.next_id() == u.next_id() + 1
                    &&& u2.elements().len() == u.elements().len() + 1
                    &&& u2.elements().drop_last() == u.elements()
                    &&& u2.elements().last().id == r
                    &&& u2.elements().last().text == text
                    &&& u2.elements().last().x == x
                    &&& u2.elements().last().y == y
                    &&& u2.elements().last().font_size == spec_font_size(options)
                    &&& u2.elements().last().color == spec_text_color(options)
                    &&& u2.elements().last().alignment@ == spec_alignment_view(options)
                    &&& u2.elements().last().visible
                } else {
                    r == 0 && final(self).ui() == old(self).ui()
                }
            },
    {
        match self.ui.take() {
            Some(mut u) => {
                if u.next_element_id() < u32::MAX {
                    let id = u.show_text(text, x, y, options);
                    self.ui = Some(u);
                    id
                } else {
                    self.ui = Some(u);
                    0
                }
            },
            None => 0,
        }
    }

    /// Make the text element with `element_id` invisible. Reports whether
    /// the ui was there and held such an element.
    pub fn hide_text(&mut self, element_id: u32) -> (r: bool)
        requires
            old(self).wf(),
        ensures
            final(self).wf(),
            old(self).ui() is None ==> !r && *final(self) == *old(self),
            old(self).ui() matches Some(u) ==> {
                &&& same_timing(old(self), final(self))
                &&& final(self).world() == old(self).world()
                &&& final(self).collision() == old(self).collision()
                &&& r == exists|i: int|
                    0 <= i < u.elements().len() && (#[trigger] u.elements()[i]).id == element_id
                &&& final(self).ui() matches Some(u2)
                &&& u2.next_id() == u.next_id()
                &&& (r ==> exists|i: int|
                    0 <= i < u.elements().len()
                    && (#[trigger] u.elements()[i]).id == element_id
                    && u2.elements() =~= u.elements().update(
                        i,
                        crate::ui::UiElement { visible: false, ..u.elements()[i] },
                    ))
                &&& (!r ==> u2.elements() == u.elements())
            },
    {
        match self.ui.take() {
            Some(mut u) => {
                let r = u.hide_text(element_id);
                self.ui = Some(u);
                r
            },
            None => false,
        }
    }

    /// Take every text element off the screen. Reports whether the ui was
    /// there.
    pub fn clear_ui(&mut self) -> (r: bool)
        requires
            old(self).wf(),
        ensures
            final(self).wf(),
            r == (old(self).ui() is Some),
            old(self).ui() is None ==> *final(self) == *old(self),
            old(self).ui() is Some ==> {
                &&& same_timing(old(self), final(self))
                &&& final(self).world() == old(self).world()
                &&& final(self).collision() == old(self).collision()
                &&& final(self).ui() matches Some(u2)
                &&& u2.elements() =~= Seq::<crate::ui::UiElement>::empty()
                &&& u2.next_id() == 1
            },
    {
        match self.ui.take() {
            Some(mut u) => {
                let r = u.clear_ui();
                self.ui = Some(u);
                r
            },
            None => false,
        }
    }

    /// Schedule a one-shot event at `millis` on the game clock. Returns
    /// the fresh event id, or the 0 sentinel when the clock is not
    /// initialised or its id space is exhausted.
    pub fn schedule_event_at_millis(&mut self, millis: u64, callback_name: String) -> (r: EventId)
        requires
            old(self).wf(),
        ensures
            final(self).wf(),
            old(self).clock() is None ==> r == 0 && *final(self) == *old(self),
            old(self).clock() matches Some(c) ==> {
                &&& final(self).world() == old(self).world()
                &&& final(self).collision() == old(self).collision()
                &&& final(self).ui() == old(self).ui()
                &&& final(self).timer() == old(self).timer()
                &&& final(self).stats() == old(self).stats()
                &&& final(self).limiter() == old(self).limiter()
                &&& if c.next_id() < EventId::MAX {
                    &&& r == c.next_id()
                    &&& final(self).clock() matches Some(c2)
                    &&& c2.next_id() == c.next_id() + 1
                    &&& c2.queue() == spec_insert(
                        c.queue(),
                        GameEvent {
                            id: r,
                            trigger_time_millis: millis,
                            callback_name,
                            repeat_interval_millis: None,
                        },
                    )
                } else {
                    r == 0 && final(self).clock() == old(self).clock()
                }
            },
    {
        match self.clock.take() {
            Some(mut c) => {
                if c.next_event_id() < EventId::MAX {
                    let id = c.schedule_event_at_millis(millis, callback_name);
                    self.clock = Some(c);
                    id
                } else {
                    self.clock = Some(c);
                    0
                }
            },
            None => 0,
        }
    }

    /// Schedule a repeating event on the game clock. Returns the fresh
    /// event id, or the 0 sentinel when the clock is not initialised, the
    /// id space is exhausted, or the interval is zero — a zero cadence
    /// would make every update pass fire the event without end.
    pub fn schedule_repeating_event(
        &mut self,
        start_time_millis: u64,
        interval_millis: u64,
        callback_name: String,
    ) -> (r: EventId)
        requires
            old(self).wf(),
        ensures
            final(self).wf(),
            old(self).clock() is None ==> r == 0 && *final(self) == *old(self),
            old(self).clock() matches Some(c) ==> {
                &&& final(self).world() == old(self).world()
                &&& final(self).collision() == old(self).collision()
                &&& final(self).ui() == old(self).ui()
                &&& final(self).timer() == old(self).timer()
                &&& final(self).stats() == old(self).stats()
                &&& final(self).limiter() == old(self).limiter()
                &&& if c.next_id() < EventId::MAX && interval_millis >= 1 {
                    &&& r == c.next_id()
                    &&& final(self).clock() matches Some(c2)
                    &&& c2.next_id() == c.next_id() + 1
                    &&& c2.queue() == spec_insert(
                        c.queue(),
                        GameEvent {
                            id: r,
                            trigger_time_millis: start_time_millis,
                            callback_name,
                            repeat_interval_millis: Some(interval_millis),
                        },
                    )
                } else {
                    r == 0 && final(self).clock() == old(self).clock()
                }
            },
    {
        match self.clock.take() {
            Some(mut c) => {
                if c.next_event_id() < EventId::MAX && interval_millis >= 1 {
                    let id = c.schedule_repeating_event(
                        start_time_millis,
                        interval_millis,
                        callback_name,
                    );
                    self.clock = Some(c);
                    id
                } else {
                    self.clock = Some(c);
                    0
                }
            },
            None => 0,
        }
    }

    /// Schedule a repeating event that is already due: it fires on the
    /// next clock update and repeats from then on.
    pub fn schedule_repeating_event_now(&mut self, interval_millis: u64, callback_name: String)
        -> (r: EventId)
        requires
            old(self).wf(),
        ensures
            final(self).wf(),
            old(self).clock() is None ==> r == 0 && *final(self) == *old(self),
            old(self).clock() matches Some(c) ==> {
                &&& final(self).world() == old(self).world()
                &&& final(self).collision() == old(self).collision()
                &&& final(self).ui() == old(self).ui()
                &&& final(self).timer() == old(self).timer()
                &&& final(self).stats() == old(self).stats()
                &&& final(self).limiter() == old(self).limiter()
                &&& if c.next_id() < EventId::MAX && interval_millis >= 1 {
                    &&& r == c.next_id()
                    &&& final(self).clock() matches Some(c2)
                    &&& c2.next_id() == c.next_id() + 1
                    &&& c2.queue() == spec_insert(
                        c.queue(),
                        GameEvent {
                            id: r,
                            trigger_time_millis: 0,
                            callback_name,
                            repeat_interval_millis: Some(interval_millis),
                        },
                    )
                } else {
                    r == 0 && final(self).clock() == old(self).clock()
                }
            },
    {
        self.schedule_repeating_event(0, interval_millis, callback_name)
    }

    /// Cancellation is a known limitation of the clock, kept as designed:
    /// this always reports failure and removes nothing, whether or not
    /// the clock is initialised.
    pub fn cancel_event(&mut self, event_id: EventId) -> (r: bool)
        requires
            old(self).wf(),
        ensures
            final(self).wf(),
            !r,
            *final(self) == *old(self),
    {
        match self.clock.take() {
            Some(mut c) => {
                let r = c.cancel_event(event_id);
                self.clock = Some(c);
                r
            },
            None => false,
        }
    }

    /// One clock update pass at `current_time_millis`: every due event is
    /// popped in order and returned, repeating ones rescheduled from the
    /// actual fire time. An uninitialised clock yields the empty batch.
    pub fn update_clock(&mut self, current_time_millis: u64) -> (fired: Vec<GameEvent>)
        requires
            old(self).wf(),
        ensures
            final(self).wf(),
            old(self).clock() is None ==> fired@ =~= Seq::<GameEvent>::empty()
                && *final(self) == *old(self),
            old(self).clock() matches Some(c) ==> {
                &&& final(self).world() == old(self).world()
                &&& final(self).collision() == old(self).collision()
                &&& final(self).ui() == old(self).ui()
                &&& final(self).timer() == old(self).timer()
                &&& final(self).stats() == old(self).stats()
                &&& final(self).limiter() == old(self).limiter()
                &&& final(self).clock() matches Some(c2)
                &&& c2.next_id() == c.next_id()
                &&& fired@ == c.queue().take(spec_due_count(c.queue(), current_time_millis))
                &&& c2.queue() == spec_requeue(
                    c.queue().skip(spec_due_count(c.queue(), current_time_millis)),
                    fired@,
                    current_time_millis,
                )
            },
    {
        match self.clock.take() {
            Some(mut c) => {
                let fired = c.update(current_time_millis);
                self.clock = Some(c);
                fired
            },
            None => Vec::new(),
        }
    }

    /// The time since the game started, in milliseconds; 0 when the timer
    /// is not initialised.
    pub fn get_game_time_millis(&self, now_millis: u64) -> (r: u64)
        ensures
            self.timer() is None ==> r == 0,
            self.timer() matches Some(t) ==> r == spec_sat_sub(now_millis, t.start_millis()),
    {
        match &self.timer {
            Some(t) => t.get_game_time_millis(now_millis),
            None => 0,
        }
    }

    /// Set up the frame limiter for `target_fps` frames per second.
    /// Reports failure on a zero rate, which has no finite frame budget.
    pub fn init_engine(&mut self, target_fps: u32) -> (r: bool)
        requires
            old(self).wf(),
        ensures
            final(self).wf(),
            r == (target_fps >= 1),
            !r ==> *final(self) == *old(self),
            r ==> {
                &&& same_scene(old(self), final(self))
                &&& final(self).clock() == old(self).clock()
                &&& final(self).timer() == old(self).timer()
                &&& final(self).stats() == old(self).stats()
                &&& final(self).limiter() matches Some(l)
                &&& l.target_fps() == target_fps
                &&& l.frame_duration_millis() == 1000u64 / (target_fps as u64)
            },
    {
        if target_fps >= 1 {
            self.limiter = Some(FrameLimiter::new(target_fps));
            true
        } else {
            false
        }
    }

    /// Replace the frame limiter with one pacing to `target_fps`.
    /// Reports failure on a zero rate, which has no finite frame budget.
    pub fn set_target_fps(&mut self, target_fps: u32) -> (r: bool)
        requires
            old(self).wf(),
        ensures
            final(self).wf(),
            r == (target_fps >= 1),
            !r ==> *final(self) == *old(self),
            r ==> {
                &&& same_scene(old(self), final(self))
                &&& final(self).clock() == old(self).clock()
                &&& final(self).timer() == old(self).timer()
                &&& final(self).stats() == old(self).stats()
                &&& final(self).limiter() matches Some(l)
                &&& l.target_fps() == target_fps
                &&& l.frame_duration_millis() == 1000u64 / (target_fps as u64)
            },
    {
        if target_fps >= 1 {
            self.limiter = Some(FrameLimiter::new(target_fps));
            true
        } else {
            false
        }
    }

    /// The target rate of the frame limiter, or the documented fallback
    /// when none has been set up.
    pub fn get_target_fps(&self) -> (r: u32)
        ensures
            self.limiter() is None ==> r == FALLBACK_TARGET_FPS,
            self.limiter() matches Some(l) ==> r == l.target_fps(),
    {
        match &self.limiter {
            Some(l) => l.get_target_fps(),
            None => FALLBACK_TARGET_FPS,
        }
    }

    /// How many frames the stats collector has recorded; 0 when it is
    /// not initialised.
    pub fn get_total_frames(&self) -> (r: u64)
        ensures
            self.stats() is None ==> r == 0,
            self.stats() matches Some(s) ==> r == s.total_frames(),
    {
        match &self.stats {
            Some(s) => s.get_total_frames(),
            None => 0,
        }
    }

    /// How long the stats collector has been running, in milliseconds;
    /// 0 when it is not initialised.
    pub fn get_uptime_millis(&self, now_millis: u64) -> (r: u64)
        ensures
            self.stats() is None ==> r == 0,
            self.stats() matches Some(s) ==> r == spec_sat_sub(now_millis, s.start_millis()),
    {
        match &self.stats {
            Some(s) => s.get_uptime_millis(now_millis),
            None => 0,
        }
    }

    /// The duration of the most recent recorded frame; absent when the
    /// stats collector is not initialised or has no samples yet.
    pub fn get_instant_frame_millis(&self) -> (r: Option<u64>)
        ensures
            self.stats() is None ==> r is None,
            self.stats() matches Some(s) ==> r == (
                if s.frame_times().len() > 0 {
                    Some(s.frame_times().last())
                } else {
                    None::<u64>
                }
            ),
    {
        match &self.stats {
            Some(s) => s.get_instant_frame_millis(),
            None => None,
        }
    }
}

/// Fill the clock and timer slots with fresh subsystems, the timer
/// started at `now_millis`.
pub fn init_game_clock_and_timer(ctx: &mut EngineContext, now_millis: u64)
    requires
        old(ctx).wf(),
    ensures
        final(ctx).wf(),
        same_scene(old(ctx), final(ctx)),
        final(ctx).stats() == old(ctx).stats(),
        final(ctx).limiter() == old(ctx).limiter(),
        final(ctx).clock() matches Some(c) && c.queue() =~= Seq::<GameEvent>::empty()
            && c.next_id() == 1,
        final(ctx).timer() matches Some(t) && t.start_millis() == now_millis
            && t.last_loop_millis() == now_millis,
{
    ctx.clock = Some(GameClock::new());
    let mut timer = GameTimer::new(now_millis);
    timer.init(now_millis);
    ctx.timer = Some(timer);
}

/// Fill the stats slot with a fresh collector started at `now_millis`.
pub fn init_stats_collector(ctx: &mut EngineContext, now_millis: u64)
    requires
        old(ctx).wf(),
    ensures
        final(ctx).wf(),
        same_scene(old(ctx), final(ctx)),
        final(ctx).clock() == old(ctx).clock(),
        final(ctx).timer() == old(ctx).timer(),
        final(ctx).limiter() == old(ctx).limiter(),
        final(ctx).stats() matches Some(s) && s.total_frames() == 0
            && s.start_millis() == now_millis && s.last_frame_millis() == now_millis
            && s.frame_times() =~= Seq::<u64>::empty(),
{
    ctx.stats = Some(StatsCollector::new(now_millis));
}

/// Fill the limiter slot with one pacing to `target_fps` frames per
/// second.
pub fn init_frame_limiter(ctx: &mut EngineContext, target_fps: u32)
    requires
        old(ctx).wf(),
        target_fps >= 1,
    ensures
        final(ctx).wf(),
        same_scene(old(ctx), final(ctx)),
        final(ctx).clock() == old(ctx).clock(),
        final(ctx).timer() == old(ctx).timer(),
        final(ctx).stats() == old(ctx).stats(),
        final(ctx).limiter() matches Some(l) && l.target_fps() == target_fps,
{
    ctx.limiter = Some(FrameLimiter::new(target_fps));
}

/// Record the end of a frame at `now_millis` on the stats collector,
/// where one is initialised and its frame count has room.
pub fn update_stats(ctx: &mut EngineContext, now_millis: u64)
    requires
        old(ctx).wf(),
    ensures
        final(ctx).wf(),
        same_scene(old(ctx), final(ctx)),
        final(ctx).clock() == old(ctx).clock(),
        final(ctx).timer() == old(ctx).timer(),
        final(ctx).limiter() == old(ctx).limiter(),
        old(ctx).stats() is None ==> final(ctx).stats() == old(ctx).stats(),
        old(ctx).stats() matches Some(s) ==> {
            &&& final(ctx).stats() matches Some(s2)
            &&& if s.total_frames() < u64::MAX {
                &&& s2.total_frames() == s.total_frames() + 1
                &&& s2.last_frame_millis() == now_millis
                &&& s2.start_millis() == s.start_millis()
                &&& s2.max_samples() == s.max_samples()
                &&& s2.frame_times() == {
                    let with_new = s.frame_times().push(
                        spec_sat_sub(now_millis, s.last_frame_millis()),
                    );
                    if s.frame_times().len() < s.max_samples() {
                        with_new
                    } else {
                        with_new.skip(1)
                    }
                }
            } else {
                s2 == s
            }
        },
{
    match ctx.stats.take() {
        Some(mut s) => {
            if s.get_total_frames() < u64::MAX {
                s.record_frame(now_millis);
            }
            ctx.stats = Some(s);
        },
        None => {},
    }
}

/// A fired-callback name the per-tick loop handles natively.
#[derive(Clone, Copy, Debug, PartialEq, Eq, Structural)]
pub enum NativeCallback {
    ShowFps,
    FpsReport,
}

/// Where one fired callback goes: to a native handler, or forwarded to
/// the script environment's own lookup under its call-if-defined
/// convention.
#[derive(Clone, Copy, Debug, PartialEq, Eq, Structural)]
pub enum CallbackRoute {
    Native(NativeCallback),
    ForwardToScript,
}

/// The dispatch table for fired callbacks: each recognised name routes to
/// its native handler, and every other name falls through to the script
/// environment.
pub open spec fn spec_route_callback(name: Seq<char>) -> CallbackRoute {
    if name == "show_fps"@ {
        CallbackRoute::Native(NativeCallback::ShowFps)
    } else if name == "fps_report"@ {
        CallbackRoute::Native(NativeCallback::FpsReport)
    } else {
        CallbackRoute::ForwardToScript
    }
}

/// Decide where a fired callback is handled. Recognised names are
/// handled natively first; unknown names are forwarded.
pub fn route_callback(name: &String) -> (r: CallbackRoute)
    ensures
        r == spec_route_callback(name@),
{
    let show_fps = String::from_str("show_fps");
    let fps_report = String::from_str("fps_report");
    if *name == show_fps {
        CallbackRoute::Native(NativeCallback::ShowFps)
    } else if *name == fps_report {
        CallbackRoute::Native(NativeCallback::FpsReport)
    } else {
        CallbackRoute::ForwardToScript
    }
}

/// Run one operation against the game clock with exclusive access: the
/// operation takes the clock and hands back the new clock with its
/// result. Yields nothing when the clock slot is empty.
pub fn with_game_clock_mut<T, F: FnOnce(GameClock) -> (GameClock, T)>(
    ctx: &mut EngineContext,
    f: F,
) -> (r: Option<T>)
    requires
        old(ctx).wf(),
        forall|c: GameClock| c.wf() ==> #[trigger] call_requires(f, (c,)),
        forall|c: GameClock, c2: GameClock, t: T|
            c.wf() && #[trigger] call_ensures(f, (c,), (c2, t)) ==> c2.wf(),
    ensures
        final(ctx).wf(),
        old(ctx).clock() is None ==> r is None && *final(ctx) == *old(ctx),
        old(ctx).clock() matches Some(c) ==> {
            &&& r matches Some(t)
            &&& final(ctx).clock() matches Some(c2)
            &&& call_ensures(f, (c,), (c2, t))
            &&& same_scene(old(ctx), final(ctx))
            &&& final(ctx).timer() == old(ctx).timer()
            &&& final(ctx).stats() == old(ctx).stats()
            &&& final(ctx).limiter() == old(ctx).limiter()
        },
{
    match ctx.clock.take() {
        Some(c) => {
            let (c2, t) = f(c);
            ctx.clock = Some(c2);
            Some(t)
        },
        None => None,
    }
}

/// Run one read-only operation against the game timer: the operation
/// gets its own copy of the timer state. Yields nothing when the timer
/// slot is empty.
pub fn with_game_timer<T, F: FnOnce(GameTimer) -> T>(ctx: &EngineContext, f: F) -> (r: Option<T>)
    requires
        forall|g: GameTimer| #[trigger] call_requires(f, (g,)),
    ensures
        ctx.timer() is None ==> r is None,
        ctx.timer() matches Some(g) ==> r matches Some(t) && call_ensures(f, (g,), t),
{
    match &ctx.timer {
        Some(g) => Some(f(*g)),
        None => None,
    }
}

} // verus!
