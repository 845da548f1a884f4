use placement_core::codec::{decode_request, encode_request, TAG_DESPAWN, TAG_MOVE, TAG_SPAWN};
use placement_core::geometry::{Vec2, Vec3};
use placement_core::orientation::{Dir, Orientation};
use placement_core::protocol::{DespawnRequest, MoveRequest, Request, SpawnRequest};

fn identity_rotation() -> Orientation {
    Orientation { base: Dir { x: 0, y: -1 }, eighths: 0 }
}

#[test]
fn codec_spawn_round_trip() {
    let request = Request::Spawn(SpawnRequest {
        template_path: b"house_01".to_vec(),
        position: Vec2 { x: 10_000, y: -5_000 },
        rotation: Orientation { base: Dir { x: 3, y: 4 }, eighths: 5 },
    });
    let frame = encode_request(&request);
    assert_eq!(frame[0], TAG_SPAWN);
    assert_eq!(frame.len(), 42 + 8);
    assert_eq!(decode_request(&frame), Some(request));
}

#[test]
fn codec_spawn_empty_template_round_trip() {
    let request = Request::Spawn(SpawnRequest {
        template_path: Vec::new(),
        position: Vec2 { x: 0, y: 0 },
        rotation: identity_rotation(),
    });
    let frame = encode_request(&request);
    assert_eq!(frame.len(), 42);
    assert_eq!(decode_request(&frame), Some(request));
}

#[test]
fn codec_move_round_trip() {
    let request = Request::Move(MoveRequest {
        object: u64::MAX,
        translation: Vec3 { x: i64::MIN, y: 0, z: i64::MAX },
        rotation: Orientation { base: Dir { x: -1, y: 1 }, eighths: 7 },
    });
    let frame = encode_request(&request);
    assert_eq!(frame[0], TAG_MOVE);
    assert_eq!(frame.len(), 50);
    assert_eq!(decode_request(&frame), Some(request));
}

#[test]
fn codec_despawn_round_trip() {
    let request = Request::Despawn(DespawnRequest { object: 42 });
    let frame = encode_request(&request);
    assert_eq!(frame[0], TAG_DESPAWN);
    assert_eq!(frame, vec![TAG_DESPAWN, 42, 0, 0, 0, 0, 0, 0, 0]);
    assert_eq!(decode_request(&frame), Some(request));
}

#[test]
fn codec_rejects_junk() {
    assert_eq!(decode_request(&Vec::new()), None);
    assert_eq!(decode_request(&vec![9, 1, 2, 3]), None);
    // A despawn frame must be exactly nine bytes.
    assert_eq!(decode_request(&vec![TAG_DESPAWN, 1, 2]), None);
    // A truncated spawn frame is no frame.
    assert_eq!(decode_request(&vec![TAG_SPAWN, 0, 0, 0, 0, 0, 0, 0, 0]), None);
}

#[test]
fn codec_rejects_wrong_length_prefix() {
    let request = Request::Spawn(SpawnRequest {
        template_path: b"ab".to_vec(),
        position: Vec2 { x: 0, y: 0 },
        rotation: identity_rotation(),
    });
    let mut frame = encode_request(&request);
    // Corrupt the template length prefix: the frame no longer parses.
    frame[1] = frame[1].wrapping_add(1);
    assert_eq!(decode_request(&frame), None);
}
