//! End-to-end runs of the client machine against the authority, with the
//! identity translation between them.

use placement_core::authority::Authority;
use placement_core::geometry::{Vec2, Vec3};
use placement_core::identity::IdentityMap;
use placement_core::orientation::{Dir, Orientation};
use placement_core::placement::PlacementMachine;
use placement_core::protocol::{translate_request, Confirmation, Request, UnmappedIdentity};

#[test]
fn scenario_spawn_accepted_and_confirmed() {
    // The authority holds one city spanning 50 units either way of the
    // origin; the client previews a house at (10, 5) and confirms.
    let mut world = Authority::new();
    world.add_city();
    let map = IdentityMap::new();
    let mut machine = PlacementMachine::new();

    machine.start_spawning(b"house_01".to_vec(), false);
    machine.update_movement(Vec2 { x: 10_000, y: 5_000 });
    machine.update_collision(false);
    let request = machine.confirm().expect("a valid preview must confirm");
    assert!(machine.is_awaiting_confirmation());

    let translated = translate_request(&map, request).expect("spawns carry no identity");
    let confirmation = world.handle_request(1, translated);
    assert_eq!(confirmation, Some(Confirmation { client: 1 }));

    // The authoritative object exists, owned by the city.
    assert_eq!(world.object_count(), 1);
    let object = world.get_object(1).unwrap();
    assert_eq!(object.template_path, b"house_01".to_vec());
    assert_eq!(object.translation, Vec3 { x: 10_000, y: 0, z: 5_000 });
    assert_eq!(object.container, 0);

    // The client observes the confirmation and disposes of the preview.
    machine.on_confirmation();
    assert!(machine.is_idle());
}

#[test]
fn scenario_move_with_unmapped_identity_drops_silently() {
    // The client relocates its local object 42, but the connection's
    // translation table has no entry for it (the object was despawned
    // concurrently). The request is rejected at translation, the authority
    // never mutates, no confirmation is sent, and the client's preview
    // stays waiting for an answer that never comes.
    let mut world = Authority::new();
    world.add_city();
    let map = IdentityMap::new();
    let mut machine = PlacementMachine::new();

    let rotation = Orientation { base: Dir { x: 0, y: -1 }, eighths: 0 };
    machine.start_moving(42, Vec2 { x: 1_000, y: 1_000 }, rotation, false);
    machine.update_collision(false);
    let request = machine.confirm().expect("a valid preview must confirm");
    assert!(matches!(request, Request::Move(_)));

    let translated = translate_request(&map, request);
    assert_eq!(translated, Err(UnmappedIdentity { object: 42 }));

    // Nothing reached the authority; nothing changed; no confirmation.
    assert_eq!(world.object_count(), 0);
    assert!(machine.is_awaiting_confirmation());
}

#[test]
fn scenario_relocation_round_trip() {
    // Spawn an object, replicate its identity to the client, pick it up,
    // move it, and confirm: the authority applies the move.
    let mut world = Authority::new();
    world.add_city();
    let mut map = IdentityMap::new();
    let mut machine = PlacementMachine::new();

    machine.start_spawning(b"table_03".to_vec(), false);
    machine.update_movement(Vec2 { x: 2_000, y: 2_000 });
    machine.update_collision(false);
    let request = machine.confirm().unwrap();
    let translated = translate_request(&map, request).unwrap();
    world.handle_request(7, translated);
    machine.on_confirmation();

    // The object replicates back under shared id 1; this client knows it
    // under local id 500.
    map.insert(500, 1);

    let rotation = Orientation { base: Dir { x: 1, y: 0 }, eighths: 0 };
    machine.start_moving(500, Vec2 { x: 2_000, y: 2_000 }, rotation, false);
    machine.update_movement(Vec2 { x: 2_500, y: 2_000 });
    machine.update_movement(Vec2 { x: 6_000, y: -1_500 });
    machine.update_collision(false);
    let request = machine.confirm().unwrap();
    let translated = translate_request(&map, request).unwrap();
    match &translated {
        Request::Move(m) => assert_eq!(m.object, 1),
        other => panic!("expected a move request, got {:?}", other),
    }
    let confirmation = world.handle_request(7, translated);
    assert_eq!(confirmation, Some(Confirmation { client: 7 }));
    machine.on_confirmation();
    assert!(machine.is_idle());

    let object = world.get_object(1).unwrap();
    assert_eq!(object.translation, Vec3 { x: 5_500, y: 0, z: -1_500 });
}
