//! The component types that can be attached to an entity, and the input
//! state consumed by the movement system.

use vstd::prelude::*;

verus! {

/// Entities are identified by opaque, strictly increasing integer ids.
pub type EntityId = u32;

/// Where an entity is, in integer world units.
#[derive(Clone, Copy, Debug, PartialEq, Eq, Structural)]
pub struct Position {
    pub x: i64,
    pub y: i64,
}

/// The shape drawn for a rendered entity.
#[derive(Clone, Copy, Debug, PartialEq, Eq, Structural)]
pub enum RenderShape {
    Square,
    Circle,
}

/// How a rendered entity looks: its extent, colour and shape.
#[derive(Clone, Copy, Debug, PartialEq, Eq)]
pub struct Render {
    pub width: i64,
    pub height: i64,
    /// RGB channels, each 0..=255.
    pub color: [u8; 3],
    pub shape: RenderShape,
}

/// Which keys drive a controllable entity.
#[derive(Clone, Copy, Debug, PartialEq, Eq, Structural)]
pub enum InputType {
    ArrowKeys,
    Wasd,
}

/// Whether movement is clamped to the screen rectangle.
#[derive(Clone, Copy, Debug, PartialEq, Eq, Structural)]
pub enum BoundsType {
    Screen,
    Unbounded,
}

/// Lets the movement system drive an entity from the input state.
#[derive(Clone, Copy, Debug, PartialEq, Eq, Structural)]
pub struct Controllable {
    /// World units per second.
    pub movement_speed: u64,
    pub input_type: InputType,
    pub bounds: BoundsType,
}

/// An axis-aligned collision box attached to an entity.
#[derive(Clone, Copy, Debug, PartialEq, Eq)]
pub struct Hitbox {
    /// Width and height of the collision box.
    pub size: [i64; 2],
    /// Offset of the box centre from the entity position.
    pub offset: [i64; 2],
    /// Collision layer (reserved for filtering what collides).
    pub layer: u32,
    /// An inactive hitbox takes no part in collision detection at all.
    pub active: bool,
}

/// A hitbox is well formed when its extent is not negative, so that the
/// bounding box it induces has `left <= right` and `top <= bottom`.
pub open spec fn hitbox_wf(h: Hitbox) -> bool {
    h.size[0] >= 0 && h.size[1] >= 0
}

/// The shape a structured render payload names: "circle" gives a circle;
/// anything else, the documented "square" included, falls back to the
/// default square.
pub open spec fn spec_parse_render_shape(name: Seq<char>) -> RenderShape {
    if name == "circle"@ {
        RenderShape::Circle
    } else {
        RenderShape::Square
    }
}

/// Decode the shape named by a structured render payload.
pub fn parse_render_shape(name: &String) -> (r: RenderShape)
    ensures
        r == spec_parse_render_shape(name@),
{
    let circle = String::from_str("circle");
    if *name == circle {
        RenderShape::Circle
    } else {
        RenderShape::Square
    }
}

/// The input mapping a structured controllable payload names: "wasd"
/// gives the WASD mapping; anything else, the documented "arrow_keys"
/// included, falls back to the default arrow keys.
pub open spec fn spec_parse_input_type(name: Seq<char>) -> InputType {
    if name == "wasd"@ {
        InputType::Wasd
    } else {
        InputType::ArrowKeys
    }
}

/// Decode the input mapping named by a structured controllable payload.
pub fn parse_input_type(name: &String) -> (r: InputType)
    ensures
        r == spec_parse_input_type(name@),
{
    let wasd = String::from_str("wasd");
    if *name == wasd {
        InputType::Wasd
    } else {
        InputType::ArrowKeys
    }
}

/// The bounds policy a structured controllable payload names: "none"
/// lifts the clamp; anything else, the documented "screen" included,
/// falls back to the default screen bounds.
pub open spec fn spec_parse_bounds_type(name: Seq<char>) -> BoundsType {
    if name == "none"@ {
        BoundsType::Unbounded
    } else {
        BoundsType::Screen
    }
}

/// Decode the bounds policy named by a structured controllable payload.
pub fn parse_bounds_type(name: &String) -> (r: BoundsType)
    ensures
        r == spec_parse_bounds_type(name@),
{
    let unbounded = String::from_str("none");
    if *name == unbounded {
        BoundsType::Unbounded
    } else {
        BoundsType::Screen
    }
}

/// The four directional input flags, each held while the key is down.
#[derive(Clone, Copy, Debug, PartialEq, Eq, Structural)]
pub struct InputState {
    pub up: bool,
    pub down: bool,
    pub left: bool,
    pub right: bool,
}

impl Default for InputState {
    /// No key is held at the start.
    fn default() -> (r: Self)
        ensures
            r == (InputState { up: false, down: false, left: false, right: false }),
    {
        InputState { up: false, down: false, left: false, right: false }
    }
}

} // verus!
