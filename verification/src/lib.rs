//! A small real-time simulation kernel: an entity/component store, an
//! all-pairs AABB collision detector, a time-ordered event scheduler, and a
//! narrow operation surface through which an embedded script environment and
//! the native per-frame loop share the same simulation state.
//!
//! All coordinates, sizes and speeds are integer world units; all times are
//! integer milliseconds. Reading the clock is left to the caller: every
//! function that needs the current time takes it as a plain `now_millis`
//! argument, so the whole library is deterministic and fully verified.

pub mod components;
pub mod collision;
pub mod table;
pub mod entity_manager;
pub mod movement;
pub mod game_clock;
pub mod game_timer;
pub mod timer;
pub mod frame_limiter;
pub mod stats;
pub mod ui;
pub mod bridge;

pub use collision::CollisionSystem;
pub use components::EntityId;
pub use entity_manager::EntityManager;
