use viklings::collision::CollisionSystem;
use viklings::components::{Hitbox, Position};
use viklings::entity_manager::EntityManager;

#[test]
fn collision_check_is_symmetric() {
    let cs = CollisionSystem::new();
    let cases = [
        (Position { x: 0, y: 0 }, Hitbox { size: [20, 20], offset: [0, 0], layer: 0, active: true },
         Position { x: 20, y: 0 }, Hitbox { size: [20, 20], offset: [0, 0], layer: 0, active: true }),
        (Position { x: 5, y: 5 }, Hitbox { size: [0, 0], offset: [0, 0], layer: 0, active: true },
         Position { x: 0, y: 0 }, Hitbox { size: [10, 10], offset: [0, 0], layer: 0, active: true }),
        (Position { x: -3, y: 7 }, Hitbox { size: [4, 12], offset: [1, -2], layer: 1, active: true },
         Position { x: 50, y: 50 }, Hitbox { size: [6, 6], offset: [0, 0], layer: 2, active: true }),
        (Position { x: 100, y: 200 }, Hitbox { size: [40, 60], offset: [10, -5], layer: 0, active: true },
         Position { x: 120, y: 180 }, Hitbox { size: [10, 30], offset: [-4, 3], layer: 0, active: true }),
    ];
    for (pa, ha, pb, hb) in cases {
        assert_eq!(
            cs.check_collision(&pa, &ha, &pb, &hb),
            cs.check_collision(&pb, &hb, &pa, &ha)
        );
    }
}

#[test]
fn zero_active_colliders_yield_zero_events_regardless_of_previous_tick() {
    let mut em = EntityManager::new();
    let mut cs = CollisionSystem::new();
    let a = em.create_entity();
    let b = em.create_entity();
    em.add_position(a, Position { x: 0, y: 0 });
    em.add_position(b, Position { x: 5, y: 5 });
    em.add_hitbox(a, Hitbox { size: [20, 20], offset: [0, 0], layer: 0, active: true });
    em.add_hitbox(b, Hitbox { size: [20, 20], offset: [0, 0], layer: 0, active: true });

    cs.update(&em, 1);
    assert_eq!(cs.get_events().len(), 1);

    // Deactivate every hitbox; the entities still overlap geometrically.
    em.add_hitbox(a, Hitbox { size: [20, 20], offset: [0, 0], layer: 0, active: false });
    em.add_hitbox(b, Hitbox { size: [20, 20], offset: [0, 0], layer: 0, active: false });

    // The pass with no active colliders leaves nothing, the previous
    // tick's events included.
    cs.update(&em, 2);
    assert_eq!(cs.get_events().len(), 0);
}

#[test]
fn poll_returns_events_once_only() {
    let mut em = EntityManager::new();
    let mut cs = CollisionSystem::new();
    let a = em.create_entity();
    let b = em.create_entity();
    em.add_position(a, Position { x: 0, y: 0 });
    em.add_position(b, Position { x: 1, y: 1 });
    em.add_hitbox(a, Hitbox { size: [8, 8], offset: [0, 0], layer: 0, active: true });
    em.add_hitbox(b, Hitbox { size: [8, 8], offset: [0, 0], layer: 0, active: true });

    cs.update(&em, 7);
    let first = cs.poll();
    assert_eq!(first.len(), 1);
    assert_eq!(first[0].timestamp_millis, 7);

    // No detector pass in between: the second poll must be empty.
    let second = cs.poll();
    assert!(second.is_empty());
}

#[test]
fn sustained_overlap_fires_once_per_pass() {
    let mut em = EntityManager::new();
    let mut cs = CollisionSystem::new();
    let a = em.create_entity();
    let b = em.create_entity();
    em.add_position(a, Position { x: 0, y: 0 });
    em.add_position(b, Position { x: 1, y: 1 });
    em.add_hitbox(a, Hitbox { size: [8, 8], offset: [0, 0], layer: 0, active: true });
    em.add_hitbox(b, Hitbox { size: [8, 8], offset: [0, 0], layer: 0, active: true });

    cs.update(&em, 1);
    cs.update(&em, 2);
    // No de-duplication across ticks, but each pass starts clean: one
    // event per pass, not two.
    assert_eq!(cs.get_events().len(), 1);
    assert_eq!(cs.get_events()[0].timestamp_millis, 2);
}

#[test]
fn all_overlapping_pairs_are_reported() {
    let mut em = EntityManager::new();
    let mut cs = CollisionSystem::new();
    // Three mutually overlapping entities: three pairs.
    for i in 0..3u32 {
        let e = em.create_entity();
        assert_eq!(e, i);
        em.add_position(e, Position { x: i as i64, y: 0 });
        em.add_hitbox(e, Hitbox { size: [10, 10], offset: [0, 0], layer: 0, active: true });
    }
    cs.update(&em, 0);
    let events = cs.get_events();
    assert_eq!(events.len(), 3);
    let mut pairs: Vec<(u32, u32)> = events.iter().map(|e| (e.entity_a, e.entity_b)).collect();
    pairs.sort();
    assert_eq!(pairs, vec![(0, 1), (0, 2), (1, 2)]);
}
