use viklings::bridge::{
    init_frame_limiter, init_game_clock_and_timer, init_stats_collector, route_callback,
    update_stats, with_game_clock_mut, with_game_timer, CallbackRoute, EngineContext,
    NativeCallback,
};
use viklings::components::{BoundsType, InputState, InputType, RenderShape};
use viklings::game_clock::GameClock;
use viklings::game_timer::GameTimer;

#[test]
fn uninitialised_slots_degrade_to_safe_defaults() {
    let mut ctx = EngineContext::new();
    assert_eq!(ctx.create_entity(), 0);
    assert_eq!(ctx.add_position(0, 1, 2), false);
    assert_eq!(ctx.add_render(0, 10, 10, [255, 0, 0], RenderShape::Square), false);
    assert_eq!(
        ctx.add_controllable(0, 5, InputType::ArrowKeys, BoundsType::Screen),
        false
    );
    assert_eq!(ctx.remove_controllable(0), false);
    assert_eq!(ctx.add_hitbox(0, 10, 10, None, None, None), false);
    assert_eq!(ctx.set_entity_color(0, 1, 2, 3), false);
    assert_eq!(ctx.set_entity_position(0, 1, 2), false);
    assert!(ctx.poll_collision_events().is_empty());
    assert_eq!(ctx.update_collisions(0), false);
    let input = InputState { up: false, down: false, left: false, right: false };
    assert_eq!(ctx.update_movement(&input, 16), false);
    assert_eq!(ctx.show_text("hi".to_string(), 0, 0, None), 0);
    assert_eq!(ctx.hide_text(1), false);
    assert_eq!(ctx.clear_ui(), false);
    assert_eq!(ctx.schedule_event_at_millis(100, "x".to_string()), 0);
    assert_eq!(ctx.schedule_repeating_event(0, 100, "x".to_string()), 0);
    assert_eq!(ctx.schedule_repeating_event_now(100, "x".to_string()), 0);
    assert_eq!(ctx.cancel_event(1), false);
    assert!(ctx.update_clock(100).is_empty());
    assert_eq!(ctx.get_game_time_millis(500), 0);
    assert_eq!(ctx.get_target_fps(), 60);
    assert_eq!(ctx.get_total_frames(), 0);
    assert_eq!(ctx.get_uptime_millis(500), 0);
    assert_eq!(ctx.get_instant_frame_millis(), None);
}

#[test]
fn one_full_tick_through_the_bridge() {
    let mut ctx = EngineContext::new();
    assert!(ctx.init_world());
    init_game_clock_and_timer(&mut ctx, 0);

    let a = ctx.create_entity();
    let b = ctx.create_entity();
    assert_eq!(a, 0);
    assert_eq!(b, 1);

    assert!(ctx.add_position(a, 0, 0));
    assert!(ctx.add_hitbox(a, 20, 20, None, None, None));
    assert!(ctx.add_position(b, 10, 10));
    assert!(ctx.add_hitbox(b, 20, 20, None, None, None));

    assert!(ctx.update_collisions(123));
    let events = ctx.poll_collision_events();
    assert_eq!(events.len(), 1);
    assert_eq!(events[0].entity_a, a);
    assert_eq!(events[0].entity_b, b);
    assert_eq!(events[0].timestamp_millis, 123);

    // A second poll with no detector pass in between returns empty.
    assert!(ctx.poll_collision_events().is_empty());
}

#[test]
fn update_with_no_active_colliders_clears_previous_events() {
    let mut ctx = EngineContext::new();
    ctx.init_world();
    let a = ctx.create_entity();
    let b = ctx.create_entity();
    ctx.add_position(a, 0, 0);
    ctx.add_hitbox(a, 20, 20, None, None, None);
    ctx.add_position(b, 10, 10);
    ctx.add_hitbox(b, 20, 20, None, None, None);

    ctx.update_collisions(1);
    // Don't poll: the events of the first pass are still stored.

    // Move both entities far apart so nothing collides any more.
    ctx.set_entity_position(a, 0, 0);
    ctx.set_entity_position(b, 5000, 5000);
    ctx.update_collisions(2);
    assert!(ctx.poll_collision_events().is_empty());
}

#[test]
fn hitbox_defaults_are_zero_offsets_and_layer() {
    let mut ctx = EngineContext::new();
    ctx.init_world();
    let a = ctx.create_entity();
    let b = ctx.create_entity();
    ctx.add_position(a, 0, 0);
    ctx.add_position(b, 14, 0);
    ctx.add_hitbox(a, 10, 10, None, None, None);
    // The explicit offset pulls b's box left onto a's; with the default
    // zero offset they would not touch.
    ctx.add_hitbox(b, 10, 10, Some(-5), Some(0), Some(7));
    ctx.update_collisions(0);
    assert_eq!(ctx.poll_collision_events().len(), 1);
}

#[test]
fn bridge_movement_moves_controllable_entities() {
    let mut ctx = EngineContext::new();
    ctx.init_world();
    let e = ctx.create_entity();
    ctx.add_position(e, 100, 100);
    ctx.add_controllable(e, 100, InputType::ArrowKeys, BoundsType::Screen);
    let input = InputState { up: false, down: false, left: true, right: false };
    assert!(ctx.update_movement(&input, 250));
    // Collision events reflect post-movement positions: probe the new
    // position through a zero-size hitbox at a known spot.
    ctx.add_hitbox(e, 0, 0, None, None, None);
    let probe = ctx.create_entity();
    ctx.add_position(probe, 75, 100);
    ctx.add_hitbox(probe, 0, 0, None, None, None);
    ctx.update_collisions(9);
    assert_eq!(ctx.poll_collision_events().len(), 1);
}

#[test]
fn scheduling_and_firing_through_the_bridge() {
    let mut ctx = EngineContext::new();
    init_game_clock_and_timer(&mut ctx, 0);
    let id = ctx.schedule_event_at_millis(3000, "boom".to_string());
    assert_eq!(id, 1);
    assert!(ctx.update_clock(2999).is_empty());
    let fired = ctx.update_clock(3000);
    assert_eq!(fired.len(), 1);
    assert_eq!(fired[0].callback_name, "boom");
    // The inert cancellation is visible through the bridge too.
    let id2 = ctx.schedule_event_at_millis(4000, "later".to_string());
    assert_eq!(id2, 2);
    assert_eq!(ctx.cancel_event(id2), false);
    assert_eq!(ctx.update_clock(4000).len(), 1);
}

#[test]
fn zero_interval_repeats_are_refused_with_the_failure_sentinel() {
    let mut ctx = EngineContext::new();
    init_game_clock_and_timer(&mut ctx, 0);
    assert_eq!(ctx.schedule_repeating_event(0, 0, "never".to_string()), 0);
    assert_eq!(ctx.schedule_repeating_event_now(0, "never".to_string()), 0);
    assert!(ctx.update_clock(10_000).is_empty());
}

#[test]
fn game_time_runs_from_the_timer_start() {
    let mut ctx = EngineContext::new();
    init_game_clock_and_timer(&mut ctx, 2000);
    assert_eq!(ctx.get_game_time_millis(2750), 750);
    assert_eq!(ctx.get_game_time_millis(1000), 0);
}

#[test]
fn engine_init_and_target_fps() {
    let mut ctx = EngineContext::new();
    assert!(ctx.init_engine(30));
    assert_eq!(ctx.get_target_fps(), 30);
    assert!(ctx.set_target_fps(144));
    assert_eq!(ctx.get_target_fps(), 144);
    assert_eq!(ctx.set_target_fps(0), false);
    assert_eq!(ctx.get_target_fps(), 144);
    init_frame_limiter(&mut ctx, 60);
    assert_eq!(ctx.get_target_fps(), 60);
}

#[test]
fn stats_flow_through_the_bridge() {
    let mut ctx = EngineContext::new();
    init_stats_collector(&mut ctx, 1000);
    update_stats(&mut ctx, 1016);
    update_stats(&mut ctx, 1032);
    assert_eq!(ctx.get_total_frames(), 2);
    assert_eq!(ctx.get_instant_frame_millis(), Some(16));
    assert_eq!(ctx.get_uptime_millis(2000), 1000);
}

#[test]
fn scoped_clock_access_runs_the_operation_once() {
    let mut ctx = EngineContext::new();
    assert_eq!(
        with_game_clock_mut(&mut ctx, |c: GameClock| { let n = c.event_count(); (c, n) }),
        None
    );
    init_game_clock_and_timer(&mut ctx, 0);
    let id = with_game_clock_mut(&mut ctx, |mut c: GameClock| {
        let id = c.schedule_event_at_millis(5, "tick".to_string());
        (c, id)
    });
    assert_eq!(id, Some(1));
    let fired = ctx.update_clock(5);
    assert_eq!(fired.len(), 1);
    assert_eq!(fired[0].callback_name, "tick");
}

#[test]
fn scoped_timer_access_sees_the_timer_state() {
    let mut ctx = EngineContext::new();
    assert_eq!(with_game_timer(&ctx, |t: GameTimer| t.get_game_time_millis(99)), None);
    init_game_clock_and_timer(&mut ctx, 50);
    assert_eq!(with_game_timer(&ctx, |t: GameTimer| t.get_game_time_millis(99)), Some(49));
}

#[test]
fn ui_text_through_the_bridge() {
    let mut ctx = EngineContext::new();
    ctx.init_world();
    let id = ctx.show_text("score: 0".to_string(), 10, 20, None);
    assert_eq!(id, 1);
    assert!(ctx.hide_text(id));
    assert!(!ctx.hide_text(77));
    assert!(ctx.clear_ui());
    // Ids start over after a clear.
    assert_eq!(ctx.show_text("again".to_string(), 0, 0, None), 1);
}

#[test]
fn render_snapshot_is_sorted_by_id() {
    let mut ctx = EngineContext::new();
    assert!(ctx.get_render_snapshot().is_empty());
    ctx.init_world();
    let e0 = ctx.create_entity();
    let e1 = ctx.create_entity();
    // Components attached in reverse order: the snapshot still comes
    // back ascending by id.
    ctx.add_position(e1, 50, 50);
    ctx.add_render(e1, 20, 20, [2, 2, 2], RenderShape::Circle);
    ctx.add_position(e0, 40, 40);
    ctx.add_render(e0, 10, 10, [1, 1, 1], RenderShape::Square);
    let snapshot = ctx.get_render_snapshot();
    assert_eq!(snapshot.len(), 2);
    assert_eq!(snapshot[0].0, e0);
    assert_eq!(snapshot[1].0, e1);
    assert_eq!(snapshot[0].2.width, 10);
    assert_eq!(snapshot[1].2.width, 20);
}

#[test]
fn fired_callbacks_route_native_first_and_forward_the_rest() {
    assert_eq!(
        route_callback(&"show_fps".to_string()),
        CallbackRoute::Native(NativeCallback::ShowFps)
    );
    assert_eq!(
        route_callback(&"fps_report".to_string()),
        CallbackRoute::Native(NativeCallback::FpsReport)
    );
    assert_eq!(route_callback(&"on_collision".to_string()), CallbackRoute::ForwardToScript);
    assert_eq!(route_callback(&"".to_string()), CallbackRoute::ForwardToScript);
}
