use placement_core::geometry::Vec3;
use placement_core::identity::IdentityMap;
use placement_core::orientation::{Dir, Orientation};
use placement_core::protocol::{
    translate_request, DespawnRequest, MoveRequest, Request, SpawnRequest, UnmappedIdentity,
};

#[test]
fn id_map_translates_both_ways() {
    let mut map = IdentityMap::new();
    map.insert(10, 100);
    map.insert(11, 101);
    assert_eq!(map.to_shared(10), Some(100));
    assert_eq!(map.to_shared(11), Some(101));
    assert_eq!(map.to_shared(12), None);
    assert_eq!(map.to_local(100), Some(10));
    assert_eq!(map.to_local(101), Some(11));
    assert_eq!(map.to_local(102), None);
}

#[test]
fn id_translate_spawn_passes_through() {
    let map = IdentityMap::new();
    let request = Request::Spawn(SpawnRequest {
        template_path: b"house_01".to_vec(),
        position: placement_core::geometry::Vec2 { x: 1, y: 2 },
        rotation: Orientation { base: Dir { x: 0, y: -1 }, eighths: 0 },
    });
    let translated = translate_request(&map, request.clone()).unwrap();
    assert_eq!(translated, request);
}

#[test]
fn id_translate_move_rewrites_identity() {
    let mut map = IdentityMap::new();
    map.insert(42, 7);
    let request = Request::Move(MoveRequest {
        object: 42,
        translation: Vec3 { x: 1, y: 2, z: 3 },
        rotation: Orientation { base: Dir { x: 0, y: -1 }, eighths: 0 },
    });
    match translate_request(&map, request).unwrap() {
        Request::Move(m) => {
            assert_eq!(m.object, 7);
            assert_eq!(m.translation, Vec3 { x: 1, y: 2, z: 3 });
        }
        other => panic!("expected a move request, got {:?}", other),
    }
}

#[test]
fn id_translate_despawn_rewrites_identity() {
    let mut map = IdentityMap::new();
    map.insert(42, 7);
    let translated =
        translate_request(&map, Request::Despawn(DespawnRequest { object: 42 })).unwrap();
    assert_eq!(translated, Request::Despawn(DespawnRequest { object: 7 }));
}

#[test]
fn id_translate_unmapped_rejected_not_dropped() {
    let map = IdentityMap::new();
    let result = translate_request(&map, Request::Despawn(DespawnRequest { object: 5 }));
    assert_eq!(result, Err(UnmappedIdentity { object: 5 }));
}
