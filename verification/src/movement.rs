//! Movement of controllable entities: displacement from held keys and a
//! time delta, then the bounds policy.
//!
//! Displacement is `speed * delta / 1000` whole world units for a delta in
//! milliseconds, each axis applied independently (diagonal motion is the
//! plain sum of both axes). The `Screen` bounds policy then clamps the
//! position into the fixed viewport; `Unbounded` leaves it alone, saturating
//! only at the edge of the representable coordinates.

use vstd::prelude::*;
use crate::components::{BoundsType, Controllable, InputState, Position};
use crate::entity_manager::EntityManager;

verus! {

/// Right edge of the fixed viewport that the `Screen` bounds policy uses.
pub const SCREEN_WIDTH: i64 = 800;

/// Bottom edge of the fixed viewport that the `Screen` bounds policy uses.
pub const SCREEN_HEIGHT: i64 = 600;

/// Whole world units travelled in `delta_millis` at `speed` units per
/// second.
pub open spec fn spec_displacement(speed: u64, delta_millis: u64) -> int {
    (speed * delta_millis) / 1000
}

/// One axis moved by `d` units backward, forward, both (cancelling out) or
/// neither, following the held keys.
pub open spec fn spec_axis_step(x: int, neg: bool, pos: bool, d: int) -> int {
    x + (if pos { d } else { 0 }) - (if neg { d } else { 0 })
}

/// A coordinate saturated at the edge of the representable range.
pub open spec fn spec_clip_i64(v: int) -> int {
    if v < i64::MIN {
        i64::MIN as int
    } else if v > i64::MAX {
        i64::MAX as int
    } else {
        v
    }
}

/// A coordinate clamped into `0..=limit` by the `Screen` bounds policy.
pub open spec fn spec_clamp(v: int, limit: int) -> int {
    if v < 0 {
        0
    } else if v > limit {
        limit
    } else {
        v
    }
}

/// Where one movement pass leaves a controllable entity that starts at `p`:
/// it moves by the displacement on each flagged axis, and the bounds
/// policy is applied to the result. The input mapping plays no part here:
/// it only says which physical keys raise the flags, which is the input
/// layer's concern.
pub open spec fn moved_position(
    p: Position,
    c: Controllable,
    input: InputState,
    delta_millis: u64,
) -> Position {
    let d = spec_displacement(c.movement_speed, delta_millis);
    let x1 = spec_axis_step(p.x as int, input.left, input.right, d);
    let y1 = spec_axis_step(p.y as int, input.up, input.down, d);
    match c.bounds {
        BoundsType::Screen => Position {
            x: spec_clamp(x1, SCREEN_WIDTH as int) as i64,
            y: spec_clamp(y1, SCREEN_HEIGHT as int) as i64,
        },
        BoundsType::Unbounded => Position {
            x: spec_clip_i64(x1) as i64,
            y: spec_clip_i64(y1) as i64,
        },
    }
}

/// Every position after one movement pass over `positions`: entities with a
/// controllable move to their `moved_position`, all others stay put.
pub open spec fn moved_positions_map(
    positions: Map<u32, Position>,
    controllables: Map<u32, Controllable>,
    input: InputState,
    delta_millis: u64,
) -> Map<u32, Position> {
    Map::new(
        |k: u32| positions.contains_key(k),
        |k: u32|
            if controllables.contains_key(k) {
                moved_position(positions[k], controllables[k], input, delta_millis)
            } else {
                positions[k]
            },
    )
}

/// One movement pass applied to one entity, in executable form.
pub fn step_position(p: Position, c: Controllable, input: &InputState, delta_millis: u64) -> (r:
    Position)
    ensures
        r == moved_position(p, c, *input, delta_millis),
{
    proof {
        vstd::arithmetic::mul::lemma_mul_upper_bound(
            c.movement_speed as int,
            u64::MAX as int,
            delta_millis as int,
            u64::MAX as int,
        );
    }
    let d: u128 = (c.movement_speed as u128) * (delta_millis as u128) / 1000;
    proof {
        if d != 0 {
            vstd::arithmetic::div_mod::lemma_multiply_divide_lt(
                (c.movement_speed as int) * (delta_millis as int),
                1000,
                i128::MAX as int,
            );
        }
    }
    let dd: i128 = d as i128;
    let x1: i128 = p.x as i128 + (if input.right { dd } else { 0 }) - (if input.left { dd } else { 0 });
    let y1: i128 = p.y as i128 + (if input.down { dd } else { 0 }) - (if input.up { dd } else { 0 });
    match c.bounds {
        BoundsType::Screen => {
            let x2: i64 = if x1 < 0 { 0 } else if x1 > SCREEN_WIDTH as i128 { SCREEN_WIDTH } else { x1 as i64 };
            let y2: i64 = if y1 < 0 { 0 } else if y1 > SCREEN_HEIGHT as i128 { SCREEN_HEIGHT } else { y1 as i64 };
            Position { x: x2, y: y2 }
        },
        BoundsType::Unbounded => {
            let x2: i64 = if x1 < i64::MIN as i128 { i64::MIN } else if x1 > i64::MAX as i128 { i64::MAX } else { x1 as i64 };
            let y2: i64 = if y1 < i64::MIN as i128 { i64::MIN } else if y1 > i64::MAX as i128 { i64::MAX } else { y1 as i64 };
            Position { x: x2, y: y2 }
        },
    }
}

/// Drives controllable entities from the input state. It remembers when it
/// last ran, so that it can measure its own delta when the caller hands it
/// only the current time.
pub struct MovementSystem {
    last_update_millis: u64,
}

impl MovementSystem {
    /// When the system last ran, in milliseconds.
    pub closed spec fn last_update(&self) -> u64 {
        self.last_update_millis
    }

    /// A movement system that considers itself last run at `now_millis`.
    pub fn new(now_millis: u64) -> (r: Self)
        ensures
            r.last_update() == now_millis,
    {
        MovementSystem { last_update_millis: now_millis }
    }

    /// One movement pass with a self-measured delta: the time since the
    /// system last ran.
    pub fn update(&mut self, em: &mut EntityManager, input: &InputState, now_millis: u64)
        requires
            old(em).wf(),
        ensures
            final(self).last_update() == now_millis,
            final(em).wf(),
            final(em).positions() =~= moved_positions_map(
                old(em).positions(),
                old(em).controllables(),
                *input,
                if now_millis >= old(self).last_update() {
                    (now_millis - old(self).last_update()) as u64
                } else {
                    0u64
                },
            ),
            final(em).renders() == old(em).renders(),
            final(em).controllables() == old(em).controllables(),
            final(em).hitboxes() == old(em).hitboxes(),
            final(em).entity_seq() == old(em).entity_seq(),
            final(em).next_id() == old(em).next_id(),
    {
        let delta: u64 = if now_millis >= self.last_update_millis {
            now_millis - self.last_update_millis
        } else {
            0
        };
        self.last_update_millis = now_millis;
        em.apply_movement(input, delta);
    }

    /// One movement pass with a caller-supplied delta. The supplied delta
    /// overrides the internal clock, which is reset to `now_millis` so that
    /// the same span is not integrated again by a later self-measured pass.
    pub fn update_with_delta(
        &mut self,
        em: &mut EntityManager,
        input: &InputState,
        delta_millis: u64,
        now_millis: u64,
    )
        requires
            old(em).wf(),
        ensures
            final(self).last_update() == now_millis,
            final(em).wf(),
            final(em).positions() =~= moved_positions_map(
                old(em).positions(),
                old(em).controllables(),
                *input,
                delta_millis,
            ),
            final(em).renders() == old(em).renders(),
            final(em).controllables() == old(em).controllables(),
            final(em).hitboxes() == old(em).hitboxes(),
            final(em).entity_seq() == old(em).entity_seq(),
            final(em).next_id() == old(em).next_id(),
    {
        self.last_update_millis = now_millis;
        em.apply_movement(input, delta_millis);
    }
}

} // verus!
