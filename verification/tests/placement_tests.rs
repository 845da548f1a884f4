use placement_core::geometry::Vec2;
use placement_core::orientation::{Dir, Orientation};
use placement_core::placement::{Effect, PlacementMachine, PreviewKind, Tint};
use placement_core::protocol::Request;
use placement_core::snap::{Edge, HALF_WIDTH, SNAP_GAP};
use placement_core::visual::{ObjectVisual, VisualRegistry, GROUP_OBJECT};

fn identity_rotation() -> Orientation {
    Orientation { base: Dir { x: 0, y: -1 }, eighths: 0 }
}

#[test]
fn place_cancel_idle_is_noop() {
    let mut machine = PlacementMachine::new();
    assert!(machine.is_idle());
    let effects = machine.cancel();
    assert!(effects.is_empty());
    assert!(machine.is_idle());
}

#[test]
fn place_spawn_preview_rides_under_cursor() {
    let mut machine = PlacementMachine::new();
    let effects = machine.start_spawning(b"chair_02".to_vec(), false);
    assert!(effects.is_empty());
    assert!(machine.is_previewing());
    machine.update_movement(Vec2 { x: 7_000, y: -3_000 });
    let preview = machine.current_preview().unwrap();
    assert_eq!(preview.position, Vec2 { x: 7_000, y: -3_000 });
}

#[test]
fn place_move_preview_does_not_jump_on_grab() {
    let mut machine = PlacementMachine::new();
    machine.start_moving(7, Vec2 { x: 9_000, y: 9_000 }, identity_rotation(), false);
    // First movement only captures the offset: the object stays put.
    machine.update_movement(Vec2 { x: 8_500, y: 8_700 });
    assert_eq!(
        machine.current_preview().unwrap().position,
        Vec2 { x: 9_000, y: 9_000 }
    );
    // Later movements carry the offset along.
    machine.update_movement(Vec2 { x: 8_600, y: 8_700 });
    assert_eq!(
        machine.current_preview().unwrap().position,
        Vec2 { x: 9_100, y: 9_000 }
    );
}

#[test]
fn place_start_moving_hides_original() {
    let mut machine = PlacementMachine::new();
    let effects = machine.start_moving(7, Vec2 { x: 0, y: 0 }, identity_rotation(), false);
    assert_eq!(effects, vec![Effect::HideOriginal { object: 7 }]);
}

#[test]
fn place_cancel_restores_original() {
    let mut machine = PlacementMachine::new();
    machine.start_moving(7, Vec2 { x: 0, y: 0 }, identity_rotation(), false);
    let effects = machine.cancel();
    assert_eq!(effects, vec![Effect::RestoreOriginal { object: 7 }]);
    assert!(machine.is_idle());
}

#[test]
fn place_second_preview_disposes_first() {
    let mut machine = PlacementMachine::new();
    let mut registry = VisualRegistry::new();
    registry.register(ObjectVisual { object: 7, visible: true, groups: GROUP_OBJECT });

    let grab = machine.start_moving(7, Vec2 { x: 0, y: 0 }, identity_rotation(), false);
    registry.apply_all(&grab);
    let hidden = registry.get(7).unwrap();
    assert!(!hidden.visible);
    assert_eq!(hidden.groups & GROUP_OBJECT, 0);

    // Starting a second preview discards the first: exactly one preview
    // remains and the discarded original is restored.
    let effects = machine.start_spawning(b"chair_02".to_vec(), false);
    assert_eq!(effects, vec![Effect::RestoreOriginal { object: 7 }]);
    registry.apply_all(&effects);
    assert!(machine.is_previewing());
    let restored = registry.get(7).unwrap();
    assert!(restored.visible);
    assert_eq!(restored.groups & GROUP_OBJECT, GROUP_OBJECT);
    assert!(matches!(
        machine.current_preview().unwrap().kind,
        PreviewKind::New { .. }
    ));
}

#[test]
fn place_wall_mounted_away_from_walls_not_allowed() {
    let mut machine = PlacementMachine::new();
    machine.start_spawning(b"shelf_01".to_vec(), true);
    machine.update_movement(Vec2 { x: 30_000, y: 30_000 });
    let walls = vec![Edge { a: Vec2 { x: 0, y: 0 }, b: Vec2 { x: 10_000, y: 0 } }];
    machine.update_snap(&walls);
    machine.update_collision(false);
    let preview = machine.current_preview().unwrap();
    assert!(!preview.allowed);
    assert_eq!(machine.material_tint(), Tint::Warning);
    // An invalid preview cannot be confirmed.
    assert!(machine.confirm().is_none());
    assert!(machine.is_previewing());
}

#[test]
fn place_wall_mounted_snaps_to_wall() {
    let mut machine = PlacementMachine::new();
    machine.start_spawning(b"shelf_01".to_vec(), true);
    machine.update_movement(Vec2 { x: 5_000, y: 700 });
    let walls = vec![Edge { a: Vec2 { x: 0, y: 0 }, b: Vec2 { x: 10_000, y: 0 } }];
    machine.update_snap(&walls);
    machine.update_collision(false);
    let preview = machine.current_preview().unwrap();
    assert!(preview.allowed);
    assert_eq!(preview.position, Vec2 { x: 5_000, y: HALF_WIDTH + SNAP_GAP });
    assert_eq!(preview.rotation.base, Dir { x: 10_000, y: 0 });
    assert_eq!(machine.material_tint(), Tint::Neutral);
}

#[test]
fn place_colliding_preview_shows_warning_and_blocks_confirm() {
    let mut machine = PlacementMachine::new();
    machine.start_spawning(b"chair_02".to_vec(), false);
    machine.update_collision(true);
    assert_eq!(machine.material_tint(), Tint::Warning);
    assert!(machine.confirm().is_none());
    machine.update_collision(false);
    assert_eq!(machine.material_tint(), Tint::Neutral);
    assert!(machine.confirm().is_some());
}

#[test]
fn place_rotation_steps_and_wraps() {
    let mut machine = PlacementMachine::new();
    machine.start_spawning(b"chair_02".to_vec(), false);
    let start = machine.current_preview().unwrap().rotation;
    machine.rotate();
    let once = machine.current_preview().unwrap().rotation;
    assert_eq!(once.eighths, (start.eighths + 1) % 8);
    for _ in 0..7 {
        machine.rotate();
    }
    let full_turn = machine.current_preview().unwrap().rotation;
    assert_eq!(full_turn, start);
}

#[test]
fn place_delete_relocation_emits_despawn() {
    let mut machine = PlacementMachine::new();
    machine.start_moving(7, Vec2 { x: 0, y: 0 }, identity_rotation(), false);
    let (request, effects) = machine.delete();
    match request {
        Some(Request::Despawn(d)) => assert_eq!(d.object, 7),
        other => panic!("expected a despawn request, got {:?}", other),
    }
    assert_eq!(effects, vec![Effect::RestoreOriginal { object: 7 }]);
    assert!(machine.is_idle());
}

#[test]
fn place_delete_spawn_preview_just_disposes() {
    let mut machine = PlacementMachine::new();
    machine.start_spawning(b"chair_02".to_vec(), false);
    let (request, effects) = machine.delete();
    assert!(request.is_none());
    assert!(effects.is_empty());
    assert!(machine.is_idle());
}

#[test]
fn place_confirm_spawn_emits_request_and_goes_inert() {
    let mut machine = PlacementMachine::new();
    machine.start_spawning(b"chair_02".to_vec(), false);
    machine.update_movement(Vec2 { x: 4_000, y: 1_000 });
    machine.update_collision(false);
    let request = machine.confirm().unwrap();
    match request {
        Request::Spawn(s) => {
            assert_eq!(s.template_path, b"chair_02".to_vec());
            assert_eq!(s.position, Vec2 { x: 4_000, y: 1_000 });
        }
        other => panic!("expected a spawn request, got {:?}", other),
    }
    assert!(machine.is_awaiting_confirmation());
    // The inert preview ignores further ticks.
    machine.update_movement(Vec2 { x: 0, y: 0 });
    assert_eq!(
        machine.current_preview().unwrap().position,
        Vec2 { x: 4_000, y: 1_000 }
    );
    // The authority's confirmation disposes it.
    let effects = machine.on_confirmation();
    assert!(effects.is_empty());
    assert!(machine.is_idle());
}
