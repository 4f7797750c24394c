use viklings::components::{
    parse_bounds_type, parse_input_type, parse_render_shape, BoundsType, Controllable, Hitbox,
    InputState, InputType, Position, Render, RenderShape,
};
use viklings::entity_manager::EntityManager;
use viklings::movement::MovementSystem;

#[test]
fn entity_ids_start_at_zero_and_count_up() {
    let mut em = EntityManager::new();
    assert_eq!(em.create_entity(), 0);
    assert_eq!(em.create_entity(), 1);
    assert_eq!(em.create_entity(), 2);
    assert_eq!(em.next_entity_id(), 3);
}

#[test]
fn render_query_is_sorted_by_id_whatever_the_insertion_order() {
    let mut em = EntityManager::new();
    let e0 = em.create_entity();
    let e1 = em.create_entity();
    let e2 = em.create_entity();

    // Attach components in reverse creation order: the query must still
    // come back ascending by id, so later-created entities draw on top.
    em.add_render(e2, Render { width: 30, height: 30, color: [3, 3, 3], shape: RenderShape::Circle });
    em.add_render(e0, Render { width: 10, height: 10, color: [1, 1, 1], shape: RenderShape::Square });
    em.add_render(e1, Render { width: 20, height: 20, color: [2, 2, 2], shape: RenderShape::Square });
    em.add_position(e2, Position { x: 2, y: 2 });
    em.add_position(e0, Position { x: 0, y: 0 });
    em.add_position(e1, Position { x: 1, y: 1 });

    let rows = em.get_entities_with_render();
    assert_eq!(rows.len(), 3);
    assert_eq!(rows[0].0, e0);
    assert_eq!(rows[1].0, e1);
    assert_eq!(rows[2].0, e2);
    assert_eq!(rows[0].2.width, 10);
    assert_eq!(rows[2].2.width, 30);
}

#[test]
fn render_query_skips_entities_without_a_position() {
    let mut em = EntityManager::new();
    let e0 = em.create_entity();
    let e1 = em.create_entity();
    em.add_render(e0, Render { width: 1, height: 1, color: [0, 0, 0], shape: RenderShape::Square });
    em.add_render(e1, Render { width: 1, height: 1, color: [0, 0, 0], shape: RenderShape::Square });
    em.add_position(e1, Position { x: 5, y: 5 });

    let rows = em.get_entities_with_render();
    assert_eq!(rows.len(), 1);
    assert_eq!(rows[0].0, e1);
}

#[test]
fn add_position_overwrites_the_previous_one() {
    let mut em = EntityManager::new();
    let e = em.create_entity();
    em.add_position(e, Position { x: 1, y: 2 });
    em.add_position(e, Position { x: 7, y: 8 });
    assert_eq!(em.get_position(e), Some(Position { x: 7, y: 8 }));
}

#[test]
fn set_position_only_moves_existing_positions() {
    let mut em = EntityManager::new();
    let e = em.create_entity();
    assert!(!em.set_position(e, Position { x: 4, y: 4 }));
    assert_eq!(em.get_position(e), None);
    em.add_position(e, Position { x: 0, y: 0 });
    assert!(em.set_position(e, Position { x: 4, y: 4 }));
    assert_eq!(em.get_position(e), Some(Position { x: 4, y: 4 }));
}

#[test]
fn remove_controllable_detaches_only_that_component() {
    let mut em = EntityManager::new();
    let e = em.create_entity();
    em.add_position(e, Position { x: 0, y: 0 });
    em.add_controllable(e, Controllable {
        movement_speed: 10,
        input_type: InputType::ArrowKeys,
        bounds: BoundsType::Screen,
    });
    assert_eq!(em.get_controllable_entities().len(), 1);
    em.remove_controllable(e);
    assert_eq!(em.get_controllable_entities().len(), 0);
    assert_eq!(em.get_position(e), Some(Position { x: 0, y: 0 }));
}

#[test]
fn set_entity_color_repaints_only_existing_renders() {
    let mut em = EntityManager::new();
    let e = em.create_entity();
    assert!(!em.set_entity_color(e, [9, 9, 9]));
    em.add_render(e, Render { width: 5, height: 5, color: [0, 0, 0], shape: RenderShape::Square });
    em.add_position(e, Position { x: 0, y: 0 });
    assert!(em.set_entity_color(e, [9, 9, 9]));
    let rows = em.get_entities_with_render();
    assert_eq!(rows[0].2.color, [9, 9, 9]);
    assert_eq!(rows[0].2.width, 5);
}

#[test]
fn components_attach_to_ids_that_were_never_created() {
    // Existence is implicit: a component map accepts any id.
    let mut em = EntityManager::new();
    em.add_position(42, Position { x: 1, y: 1 });
    em.add_hitbox(42, Hitbox { size: [2, 2], offset: [0, 0], layer: 0, active: true });
    assert_eq!(em.get_entities_with_hitbox().len(), 1);
    assert_eq!(em.get_entities_with_hitbox()[0].0, 42);
}

#[test]
fn displacement_is_speed_times_delta() {
    let mut em = EntityManager::new();
    let e = em.create_entity();
    em.add_position(e, Position { x: 100, y: 100 });
    em.add_controllable(e, Controllable {
        movement_speed: 100,
        input_type: InputType::ArrowKeys,
        bounds: BoundsType::Screen,
    });
    let mut ms = MovementSystem::new(0);
    let input = InputState { up: false, down: false, left: false, right: true };
    // 100 units per second for half a second: 50 units to the right.
    ms.update_with_delta(&mut em, &input, 500, 500);
    assert_eq!(em.get_position(e), Some(Position { x: 150, y: 100 }));
}

#[test]
fn up_decreases_y_and_down_increases_y() {
    let mut em = EntityManager::new();
    let e = em.create_entity();
    em.add_position(e, Position { x: 0, y: 300 });
    em.add_controllable(e, Controllable {
        movement_speed: 10,
        input_type: InputType::ArrowKeys,
        bounds: BoundsType::Screen,
    });
    let mut ms = MovementSystem::new(0);
    let up = InputState { up: true, down: false, left: false, right: false };
    ms.update_with_delta(&mut em, &up, 1000, 1000);
    assert_eq!(em.get_position(e), Some(Position { x: 0, y: 290 }));
    let down = InputState { up: false, down: true, left: false, right: false };
    ms.update_with_delta(&mut em, &down, 2000, 3000);
    assert_eq!(em.get_position(e), Some(Position { x: 0, y: 310 }));
}

#[test]
fn opposite_keys_cancel_out() {
    let mut em = EntityManager::new();
    let e = em.create_entity();
    em.add_position(e, Position { x: 100, y: 100 });
    em.add_controllable(e, Controllable {
        movement_speed: 50,
        input_type: InputType::ArrowKeys,
        bounds: BoundsType::Screen,
    });
    let mut ms = MovementSystem::new(0);
    let input = InputState { up: true, down: true, left: true, right: true };
    ms.update_with_delta(&mut em, &input, 1000, 1000);
    assert_eq!(em.get_position(e), Some(Position { x: 100, y: 100 }));
}

#[test]
fn diagonal_motion_is_the_plain_sum_of_both_axes() {
    let mut em = EntityManager::new();
    let e = em.create_entity();
    em.add_position(e, Position { x: 100, y: 100 });
    em.add_controllable(e, Controllable {
        movement_speed: 30,
        input_type: InputType::ArrowKeys,
        bounds: BoundsType::Screen,
    });
    let mut ms = MovementSystem::new(0);
    let input = InputState { up: false, down: true, left: false, right: true };
    ms.update_with_delta(&mut em, &input, 1000, 1000);
    // Not normalised: the full displacement on each axis.
    assert_eq!(em.get_position(e), Some(Position { x: 130, y: 130 }));
}

#[test]
fn screen_bounds_clamp_into_the_viewport() {
    let mut em = EntityManager::new();
    let e = em.create_entity();
    em.add_position(e, Position { x: 790, y: 5 });
    em.add_controllable(e, Controllable {
        movement_speed: 100,
        input_type: InputType::ArrowKeys,
        bounds: BoundsType::Screen,
    });
    let mut ms = MovementSystem::new(0);
    let input = InputState { up: true, down: false, left: false, right: true };
    ms.update_with_delta(&mut em, &input, 1000, 1000);
    // x would be 890, clamped to 800; y would be -95, clamped to 0.
    assert_eq!(em.get_position(e), Some(Position { x: 800, y: 0 }));
}

#[test]
fn unbounded_entities_leave_the_viewport() {
    let mut em = EntityManager::new();
    let e = em.create_entity();
    em.add_position(e, Position { x: 0, y: 0 });
    em.add_controllable(e, Controllable {
        movement_speed: 100,
        input_type: InputType::ArrowKeys,
        bounds: BoundsType::Unbounded,
    });
    let mut ms = MovementSystem::new(0);
    let input = InputState { up: true, down: false, left: true, right: false };
    ms.update_with_delta(&mut em, &input, 1000, 1000);
    assert_eq!(em.get_position(e), Some(Position { x: -100, y: -100 }));
}

#[test]
fn wasd_entities_move_from_the_same_flags() {
    let mut em = EntityManager::new();
    let e = em.create_entity();
    em.add_position(e, Position { x: 700, y: 300 });
    em.add_controllable(e, Controllable {
        movement_speed: 100,
        input_type: InputType::Wasd,
        bounds: BoundsType::Screen,
    });
    let mut ms = MovementSystem::new(0);
    let input = InputState { up: false, down: false, left: true, right: false };
    ms.update_with_delta(&mut em, &input, 1000, 1000);
    // The mapping only decides which physical keys raise the flags; the
    // displacement itself applies to every controllable entity alike.
    assert_eq!(em.get_position(e), Some(Position { x: 600, y: 300 }));
}

#[test]
fn bounds_clamp_applies_even_without_displacement() {
    let mut em = EntityManager::new();
    let e = em.create_entity();
    em.add_position(e, Position { x: 900, y: 300 });
    em.add_controllable(e, Controllable {
        movement_speed: 100,
        input_type: InputType::Wasd,
        bounds: BoundsType::Screen,
    });
    let mut ms = MovementSystem::new(0);
    let input = InputState { up: false, down: false, left: false, right: false };
    ms.update_with_delta(&mut em, &input, 1000, 1000);
    // No key held, yet the screen clamp still pulls the position back
    // into the viewport.
    assert_eq!(em.get_position(e), Some(Position { x: 800, y: 300 }));
}

#[test]
fn self_measured_delta_runs_from_the_previous_update() {
    let mut em = EntityManager::new();
    let e = em.create_entity();
    em.add_position(e, Position { x: 0, y: 0 });
    em.add_controllable(e, Controllable {
        movement_speed: 10,
        input_type: InputType::ArrowKeys,
        bounds: BoundsType::Unbounded,
    });
    let mut ms = MovementSystem::new(1000);
    let input = InputState { up: false, down: false, left: false, right: true };
    // 2 seconds since the system last ran: 20 units.
    ms.update(&mut em, &input, 3000);
    assert_eq!(em.get_position(e), Some(Position { x: 20, y: 0 }));
    // No time passed: no movement.
    ms.update(&mut em, &input, 3000);
    assert_eq!(em.get_position(e), Some(Position { x: 20, y: 0 }));
}

#[test]
fn payload_strings_decode_with_documented_defaults() {
    assert_eq!(parse_render_shape(&"square".to_string()), RenderShape::Square);
    assert_eq!(parse_render_shape(&"circle".to_string()), RenderShape::Circle);
    // Anything unrecognised falls back to the documented default.
    assert_eq!(parse_render_shape(&"hexagon".to_string()), RenderShape::Square);
    assert_eq!(parse_input_type(&"arrow_keys".to_string()), InputType::ArrowKeys);
    assert_eq!(parse_input_type(&"wasd".to_string()), InputType::Wasd);
    assert_eq!(parse_input_type(&"joystick".to_string()), InputType::ArrowKeys);
    assert_eq!(parse_bounds_type(&"screen".to_string()), BoundsType::Screen);
    assert_eq!(parse_bounds_type(&"none".to_string()), BoundsType::Unbounded);
    assert_eq!(parse_bounds_type(&"torus".to_string()), BoundsType::Screen);
}
