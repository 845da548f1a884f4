use placement_core::authority::{polygon_contains_point, Authority, HALF_CITY_SIZE};
use placement_core::geometry::{Vec2, Vec3};
use placement_core::orientation::{Dir, Orientation};
use placement_core::protocol::{
    Confirmation, DespawnRequest, MoveRequest, Request, SpawnRequest,
};

fn identity_rotation() -> Orientation {
    Orientation { base: Dir { x: 0, y: -1 }, eighths: 0 }
}

fn spawn_at(x: i64, z: i64) -> SpawnRequest {
    SpawnRequest {
        template_path: b"house_01".to_vec(),
        position: Vec2 { x, y: z },
        rotation: identity_rotation(),
    }
}

#[test]
fn auth_spawn_inside_city_accepted() {
    let mut world = Authority::new();
    let city = world.add_city();
    let conf = world.handle_spawn(1, spawn_at(10_000, 5_000));
    assert_eq!(conf, Some(Confirmation { client: 1 }));
    assert_eq!(world.object_count(), 1);
    let object = world.get_object(1).unwrap();
    assert_eq!(object.template_path, b"house_01".to_vec());
    assert_eq!(object.translation, Vec3 { x: 10_000, y: 0, z: 5_000 });
    assert_eq!(object.container, city);
}

#[test]
fn auth_spawn_outside_every_city_rejected() {
    let mut world = Authority::new();
    world.add_city();
    // One unit beyond the city's half-extent along the row.
    let conf = world.handle_spawn(1, spawn_at(HALF_CITY_SIZE + 1_000, 0));
    assert_eq!(conf, None);
    assert_eq!(world.object_count(), 0);
}

#[test]
fn auth_spawn_beyond_lateral_band_rejected() {
    let mut world = Authority::new();
    world.add_city();
    let conf = world.handle_spawn(1, spawn_at(0, HALF_CITY_SIZE + 1));
    assert_eq!(conf, None);
    assert_eq!(world.object_count(), 0);
}

#[test]
fn auth_spawn_on_half_extent_boundary_rejected() {
    let mut world = Authority::new();
    world.add_city();
    // Exactly on the boundary is not strictly inside.
    let conf = world.handle_spawn(1, spawn_at(HALF_CITY_SIZE, 0));
    assert_eq!(conf, None);
}

#[test]
fn auth_second_city_spans_next_slot() {
    let mut world = Authority::new();
    let first = world.add_city();
    let second = world.add_city();
    assert_ne!(first, second);
    // 120 units along the row: inside the second city's span only.
    let conf = world.handle_spawn(3, spawn_at(120_000, 0));
    assert_eq!(conf, Some(Confirmation { client: 3 }));
    let object = world.get_object(2).unwrap();
    assert_eq!(object.container, second);
}

#[test]
fn auth_spawn_inside_lot_owned_by_lot() {
    let mut world = Authority::new();
    let city = world.add_city();
    let square = vec![
        Vec2 { x: 0, y: 0 },
        Vec2 { x: 20_000, y: 0 },
        Vec2 { x: 20_000, y: 20_000 },
        Vec2 { x: 0, y: 20_000 },
    ];
    let (lot, conf) = world.add_lot(2, square);
    assert_eq!(conf, Confirmation { client: 2 });
    let inside = world.handle_spawn(1, spawn_at(10_000, 10_000));
    assert!(inside.is_some());
    assert_eq!(world.get_object(2).unwrap().container, lot);
    // A point in the city but outside the lot's polygon goes to the city.
    let outside = world.handle_spawn(1, spawn_at(30_000, 10_000));
    assert!(outside.is_some());
    assert_eq!(world.get_object(3).unwrap().container, city);
}

#[test]
fn auth_move_updates_pose() {
    let mut world = Authority::new();
    world.add_city();
    world.handle_spawn(1, spawn_at(10_000, 5_000));
    let conf = world.handle_move(
        1,
        MoveRequest {
            object: 1,
            translation: Vec3 { x: -4_000, y: 0, z: 2_500 },
            rotation: identity_rotation(),
        },
    );
    assert_eq!(conf, Some(Confirmation { client: 1 }));
    let object = world.get_object(1).unwrap();
    assert_eq!(object.translation, Vec3 { x: -4_000, y: 0, z: 2_500 });
    assert_eq!(object.template_path, b"house_01".to_vec());
}

#[test]
fn auth_move_unknown_identity_dropped() {
    let mut world = Authority::new();
    world.add_city();
    world.handle_spawn(1, spawn_at(10_000, 5_000));
    let conf = world.handle_move(
        1,
        MoveRequest {
            object: 42,
            translation: Vec3 { x: 0, y: 0, z: 0 },
            rotation: identity_rotation(),
        },
    );
    assert_eq!(conf, None);
    assert_eq!(
        world.get_object(1).unwrap().translation,
        Vec3 { x: 10_000, y: 0, z: 5_000 }
    );
}

#[test]
fn auth_despawn_removes_object() {
    let mut world = Authority::new();
    world.add_city();
    world.handle_spawn(1, spawn_at(10_000, 5_000));
    let conf = world.handle_request(1, Request::Despawn(DespawnRequest { object: 1 }));
    assert_eq!(conf, Some(Confirmation { client: 1 }));
    assert_eq!(world.object_count(), 0);
    assert!(world.get_object(1).is_none());
}

#[test]
fn auth_despawn_unknown_identity_dropped() {
    let mut world = Authority::new();
    world.add_city();
    world.handle_spawn(1, spawn_at(10_000, 5_000));
    let conf = world.handle_despawn(1, DespawnRequest { object: 9 });
    assert_eq!(conf, None);
    assert_eq!(world.object_count(), 1);
}

#[test]
fn auth_reset_placed_cities_reuses_slots() {
    let mut world = Authority::new();
    world.add_city();
    world.reset_placed_cities();
    world.add_city();
    assert_eq!(world.city_count(), 2);
    // Both cities sit on the first slot, so a point there is accepted.
    assert!(world.handle_spawn(1, spawn_at(0, 0)).is_some());
}

#[test]
fn polygon_square_contains_center_not_outside() {
    let square = vec![
        Vec2 { x: 0, y: 0 },
        Vec2 { x: 20_000, y: 0 },
        Vec2 { x: 20_000, y: 20_000 },
        Vec2 { x: 0, y: 20_000 },
    ];
    assert!(polygon_contains_point(&square, Vec2 { x: 10_000, y: 10_000 }));
    assert!(!polygon_contains_point(&square, Vec2 { x: 30_000, y: 10_000 }));
    assert!(!polygon_contains_point(&square, Vec2 { x: -1, y: 10_000 }));
}

#[test]
fn polygon_concave_shape() {
    // A U shape: inside one arm, outside the notch between the arms.
    let u_shape = vec![
        Vec2 { x: 0, y: 0 },
        Vec2 { x: 30_000, y: 0 },
        Vec2 { x: 30_000, y: 20_000 },
        Vec2 { x: 20_000, y: 20_000 },
        Vec2 { x: 20_000, y: 5_000 },
        Vec2 { x: 10_000, y: 5_000 },
        Vec2 { x: 10_000, y: 20_000 },
        Vec2 { x: 0, y: 20_000 },
    ];
    assert!(polygon_contains_point(&u_shape, Vec2 { x: 5_000, y: 10_000 }));
    assert!(polygon_contains_point(&u_shape, Vec2 { x: 25_000, y: 10_000 }));
    assert!(!polygon_contains_point(&u_shape, Vec2 { x: 15_000, y: 10_000 }));
}

#[test]
fn polygon_empty_contains_nothing() {
    let empty: Vec<Vec2> = Vec::new();
    assert!(!polygon_contains_point(&empty, Vec2 { x: 0, y: 0 }));
}
