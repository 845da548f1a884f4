//! The placement state machine: the lifecycle of the single in-flight
//! placement preview on a client.
//!
//! The machine is *Idle* until a pick or spawn input creates a preview;
//! while *Previewing*, each tick feeds it the projected cursor position,
//! the nearby wall edges and the collision test's verdict, in that order;
//! a confirm input emits a replication request and leaves the preview
//! inert in *AwaitingConfirmation* until the authority's confirmation
//! disposes of it. At most one preview exists at any time, by
//! construction: starting a new one first disposes of the old one, and
//! disposal of a relocation preview emits the effect that restores the
//! original object's visibility and collision membership.
//!
//! Every transition is mirrored by a specification function over the
//! machine's mathematical state, and each method's contract says it
//! performs exactly that transition.

use vstd::prelude::*;

use crate::geometry::{clamp_int, clamp_pos, Vec2, Vec3, POS_LIMIT};
use crate::orientation::{Dir, Orientation};
use crate::protocol::{DespawnRequest, MoveRequest, Request, RequestModel, SpawnModel, SpawnRequest};
use crate::snap::{first_snap_index, resolve_snap, Edge};

verus! {

/// What a preview is for: creating a new object from a template, or
/// relocating an existing object, named by its client-local id.
#[derive(Clone, PartialEq, Eq, Debug)]
pub enum PreviewKind {
    New { template_path: Vec<u8> },
    Relocate { object: u64 },
}

/// Specification-level image of a `PreviewKind`.
pub enum KindModel {
    New { template_path: Seq<u8> },
    Relocate { object: u64 },
}

impl View for PreviewKind {
    type V = KindModel;

    open spec fn view(&self) -> KindModel {
        match self {
            PreviewKind::New { template_path } => KindModel::New {
                template_path: template_path@,
            },
            PreviewKind::Relocate { object } => KindModel::Relocate { object: *object },
        }
    }
}

/// The one in-flight placement preview.
#[derive(Clone, PartialEq, Eq, Debug)]
pub struct PlacementPreview {
    pub kind: PreviewKind,
    /// Current lateral position of the previewed object.
    pub position: Vec2,
    pub rotation: Orientation,
    /// Whether the previewed shape currently intersects another collider.
    pub collides: bool,
    /// Whether the current position is legally placeable, apart from
    /// collision: a wall-mounted object away from every wall is not.
    pub allowed: bool,
    /// Offset from the projected cursor point to the object, captured once
    /// at the first movement so a grabbed object does not jump under the
    /// cursor.
    pub cursor_offset: Option<Vec2>,
    /// Whether this object type requires a wall attachment.
    pub wall_mounted: bool,
}

/// Specification-level image of a `PlacementPreview`.
pub struct PreviewModel {
    pub kind: KindModel,
    pub position: Vec2,
    pub rotation: Orientation,
    pub collides: bool,
    pub allowed: bool,
    pub cursor_offset: Option<Vec2>,
    pub wall_mounted: bool,
}

impl View for PlacementPreview {
    type V = PreviewModel;

    open spec fn view(&self) -> PreviewModel {
        PreviewModel {
            kind: self.kind@,
            position: self.position,
            rotation: self.rotation,
            collides: self.collides,
            allowed: self.allowed,
            cursor_offset: self.cursor_offset,
            wall_mounted: self.wall_mounted,
        }
    }
}

/// The machine's state: no preview, a live preview updated every tick, or
/// an inert preview waiting for the authority's confirmation.
#[derive(Clone, PartialEq, Eq, Debug)]
pub enum PlacementState {
    Idle,
    Previewing(PlacementPreview),
    AwaitingConfirmation(PlacementPreview),
}

/// Specification-level image of a `PlacementState`.
pub enum StateModel {
    Idle,
    Previewing(PreviewModel),
    AwaitingConfirmation(PreviewModel),
}

impl View for PlacementState {
    type V = StateModel;

    open spec fn view(&self) -> StateModel {
        match self {
            PlacementState::Idle => StateModel::Idle,
            PlacementState::Previewing(pv) => StateModel::Previewing(pv@),
            PlacementState::AwaitingConfirmation(pv) => StateModel::AwaitingConfirmation(pv@),
        }
    }
}

/// World-side bookkeeping a transition asks for: hiding a relocated
/// original (and dropping it from the default collision membership, so the
/// moving copy cannot collide with itself), or restoring it on disposal.
#[derive(Clone, Copy, PartialEq, Eq, Structural, Debug)]
pub enum Effect {
    HideOriginal { object: u64 },
    RestoreOriginal { object: u64 },
}

/// Preview material tint: a warning tint marks a preview that cannot be
/// confirmed where it stands.
#[derive(Clone, Copy, PartialEq, Eq, Structural, Debug)]
pub enum Tint {
    Neutral,
    Warning,
}

pub open spec fn preview_wf(pv: PreviewModel) -> bool {
    pv.position.in_pos_bounds() && pv.rotation.wf()
}

pub open spec fn state_wf(st: StateModel) -> bool {
    match st {
        StateModel::Idle => true,
        StateModel::Previewing(pv) => preview_wf(pv),
        StateModel::AwaitingConfirmation(pv) => preview_wf(pv),
    }
}

/// How many previews a state holds: never more than one, by construction.
pub open spec fn preview_count(st: StateModel) -> int {
    match st {
        StateModel::Idle => 0,
        StateModel::Previewing(_) => 1,
        StateModel::AwaitingConfirmation(_) => 1,
    }
}

/// The effects of disposing a preview of the given kind: a relocated
/// original gets its visibility and collision membership back.
pub open spec fn kind_dispose_effects(k: KindModel) -> Seq<Effect> {
    match k {
        KindModel::New { .. } => Seq::empty(),
        KindModel::Relocate { object } => seq![Effect::RestoreOriginal { object }],
    }
}

/// The effects of disposing whatever preview the state holds.
pub open spec fn dispose_effects(st: StateModel) -> Seq<Effect> {
    match st {
        StateModel::Idle => Seq::empty(),
        StateModel::Previewing(pv) => kind_dispose_effects(pv.kind),
        StateModel::AwaitingConfirmation(pv) => kind_dispose_effects(pv.kind),
    }
}

/// A fresh preview for spawning from a template: at the container origin,
/// facing the camera, with the cursor offset already fixed at zero so the
/// object rides directly under the cursor.
pub open spec fn fresh_spawn_preview(template_path: Seq<u8>, wall_mounted: bool) -> PreviewModel {
    PreviewModel {
        kind: KindModel::New { template_path },
        position: Vec2 { x: 0, y: 0 },
        rotation: Orientation { base: Dir { x: 0i64, y: -1i64 }, eighths: 0 },
        collides: false,
        allowed: true,
        cursor_offset: Some(Vec2 { x: 0, y: 0 }),
        wall_mounted,
    }
}

/// A fresh preview for relocating an existing object: it starts at the
/// object's committed pose, and the cursor offset is captured later, at
/// the first movement.
pub open spec fn fresh_move_preview(
    object: u64,
    position: Vec2,
    rotation: Orientation,
    wall_mounted: bool,
) -> PreviewModel {
    PreviewModel {
        kind: KindModel::Relocate { object },
        position,
        rotation,
        collides: false,
        allowed: true,
        cursor_offset: None,
        wall_mounted,
    }
}

/// Starting a spawn preview: any existing preview is disposed of first.
pub open spec fn spec_start_spawning(st: StateModel, template_path: Seq<u8>, wall_mounted: bool) -> (
    StateModel,
    Seq<Effect>,
) {
    (
        StateModel::Previewing(fresh_spawn_preview(template_path, wall_mounted)),
        dispose_effects(st),
    )
}

/// Starting a relocation preview: any existing preview is disposed of
/// first, and the original object is hidden and excluded from collision.
pub open spec fn spec_start_moving(
    st: StateModel,
    object: u64,
    position: Vec2,
    rotation: Orientation,
    wall_mounted: bool,
) -> (StateModel, Seq<Effect>) {
    (
        StateModel::Previewing(fresh_move_preview(object, position, rotation, wall_mounted)),
        dispose_effects(st).push(Effect::HideOriginal { object }),
    )
}

/// The tick's movement stage: the preview follows the projected cursor
/// point plus the captured offset; the offset is captured at the first
/// movement as exactly the vector that keeps the preview where it stands.
pub open spec fn spec_update_movement(st: StateModel, raw: Vec2) -> StateModel {
    match st {
        StateModel::Previewing(pv) => {
            let off = match pv.cursor_offset {
                Some(o) => o,
                None => Vec2 {
                    x: (pv.position.x - raw.x) as i64,
                    y: (pv.position.y - raw.y) as i64,
                },
            };
            let position = Vec2 {
                x: clamp_int(raw.x + off.x, -POS_LIMIT as int, POS_LIMIT as int) as i64,
                y: clamp_int(raw.y + off.y, -POS_LIMIT as int, POS_LIMIT as int) as i64,
            };
            StateModel::Previewing(
                PreviewModel { position, cursor_offset: Some(off), ..pv },
            )
        },
        _ => st,
    }
}

/// The tick's snap stage for wall-mounted previews: glue the pose to the
/// first wall edge within the snap radius, or mark the preview not
/// placeable when every edge is too far. Other previews are untouched.
pub open spec fn spec_update_snap(st: StateModel, edges: Seq<Edge>) -> StateModel {
    match st {
        StateModel::Previewing(pv) => {
            if !pv.wall_mounted {
                st
            } else {
                let i = first_snap_index(edges, pv.position@);
                if i == -1 {
                    StateModel::Previewing(PreviewModel { allowed: false, ..pv })
                } else {
                    let sp = edges[i].snap_point(pv.position@);
                    let sd = edges[i].snap_dir(pv.position@);
                    StateModel::Previewing(
                        PreviewModel {
                            position: Vec2 { x: sp.x as i64, y: sp.y as i64 },
                            rotation: Orientation {
                                base: Dir { x: sd.x as i64, y: sd.y as i64 },
                                eighths: 0,
                            },
                            allowed: true,
                            ..pv
                        },
                    )
                }
            }
        },
        _ => st,
    }
}

/// The tick's collision stage: record the spatial query's verdict for the
/// pose the movement and snap stages produced this tick.
pub open spec fn spec_update_collision(st: StateModel, collides: bool) -> StateModel {
    match st {
        StateModel::Previewing(pv) => StateModel::Previewing(PreviewModel { collides, ..pv }),
        _ => st,
    }
}

/// A manual reorientation input: one eighth turn clockwise, wrapping.
pub open spec fn spec_rotate(st: StateModel) -> StateModel {
    match st {
        StateModel::Previewing(pv) => StateModel::Previewing(
            PreviewModel {
                rotation: Orientation {
                    base: pv.rotation.base,
                    eighths: ((pv.rotation.eighths as int + 1) % 8) as u8,
                },
                ..pv
            },
        ),
        _ => st,
    }
}

/// The tint the preview's materials get: a warning wherever confirming is
/// impossible (colliding, or not legally placeable).
pub open spec fn spec_tint(st: StateModel) -> Tint {
    match st {
        StateModel::Idle => Tint::Neutral,
        StateModel::Previewing(pv) => if pv.collides || !pv.allowed {
            Tint::Warning
        } else {
            Tint::Neutral
        },
        StateModel::AwaitingConfirmation(pv) => if pv.collides || !pv.allowed {
            Tint::Warning
        } else {
            Tint::Neutral
        },
    }
}

/// A confirm input: a valid live preview emits its replication request
/// and goes inert awaiting the authority's confirmation; anything else is
/// a no-op.
pub open spec fn spec_confirm(st: StateModel) -> (StateModel, Option<RequestModel>) {
    match st {
        StateModel::Previewing(pv) => {
            if !pv.collides && pv.allowed {
                let request = match pv.kind {
                    KindModel::New { template_path } => RequestModel::Spawn(
                        SpawnModel { template_path, position: pv.position, rotation: pv.rotation },
                    ),
                    KindModel::Relocate { object } => RequestModel::Move(
                        MoveRequest {
                            object,
                            translation: Vec3 { x: pv.position.x, y: 0, z: pv.position.y },
                            rotation: pv.rotation,
                        },
                    ),
                };
                (StateModel::AwaitingConfirmation(pv), Some(request))
            } else {
                (st, None)
            }
        },
        _ => (st, None),
    }
}

/// A delete input: a live relocation preview emits the despawn request for
/// its original object and is disposed of as a cancel (the object itself
/// is destroyed by the authority); a live spawn preview is simply
/// disposed; anything else is a no-op.
pub open spec fn spec_delete(st: StateModel) -> (StateModel, Option<RequestModel>, Seq<Effect>) {
    match st {
        StateModel::Previewing(pv) => match pv.kind {
            KindModel::Relocate { object } => (
                StateModel::Idle,
                Some(RequestModel::Despawn(DespawnRequest { object })),
                kind_dispose_effects(pv.kind),
            ),
            KindModel::New { .. } => (StateModel::Idle, None, Seq::empty()),
        },
        _ => (st, None, Seq::empty()),
    }
}

/// A cancel input, or a mode or state exit: whatever preview exists is
/// disposed of without emitting any request. Cancelling an idle machine
/// changes nothing and asks for nothing.
pub open spec fn spec_cancel(st: StateModel) -> (StateModel, Seq<Effect>) {
    (StateModel::Idle, dispose_effects(st))
}

/// Receipt of the authority's confirmation: the inert preview is disposed
/// of permanently; a confirmation in any other state is a no-op.
pub open spec fn spec_on_confirmation(st: StateModel) -> (StateModel, Seq<Effect>) {
    match st {
        StateModel::AwaitingConfirmation(_) => (StateModel::Idle, dispose_effects(st)),
        _ => (st, Seq::empty()),
    }
}

/// Cancelling an idle machine is a no-op: the state stays idle and no
/// effect is asked for.
pub proof fn lemma_cancel_idle_noop()
    ensures
        spec_cancel(StateModel::Idle) == (StateModel::Idle, Seq::<Effect>::empty()),
{
}

/// Starting a preview while one exists leaves exactly one preview, and a
/// discarded relocation preview's original object gets its restore effect.
pub proof fn lemma_start_exclusive(st: StateModel, template_path: Seq<u8>, wall_mounted: bool)
    ensures
        preview_count(spec_start_spawning(st, template_path, wall_mounted).0) == 1,
        forall|pv: PreviewModel, object: u64|
            (st == StateModel::Previewing(pv) || st == StateModel::AwaitingConfirmation(pv))
                && pv.kind == (KindModel::Relocate { object }) ==> spec_start_spawning(
                st,
                template_path,
                wall_mounted,
            ).1.contains(Effect::RestoreOriginal { object }),
{
    assert forall|pv: PreviewModel, object: u64|
        (st == StateModel::Previewing(pv) || st == StateModel::AwaitingConfirmation(pv)) && pv.kind
            == (KindModel::Relocate { object }) implies spec_start_spawning(
        st,
        template_path,
        wall_mounted,
    ).1.contains(Effect::RestoreOriginal { object }) by {
        assert(dispose_effects(st)[0] == Effect::RestoreOriginal { object });
    }
}

/// The client-side owner of the single in-flight preview.
pub struct PlacementMachine {
    state: PlacementState,
}

impl View for PlacementMachine {
    type V = StateModel;

    closed spec fn view(&self) -> StateModel {
        self.state@
    }
}

impl PlacementMachine {
    pub fn new() -> (r: PlacementMachine)
        ensures
            r@ == StateModel::Idle,
            state_wf(r@),
    {
        PlacementMachine { state: PlacementState::Idle }
    }

    /// Begins previewing a new object of the given template; any existing
    /// preview is disposed of first (exclusivity).
    pub fn start_spawning(&mut self, template_path: Vec<u8>, wall_mounted: bool) -> (effects: Vec<
        Effect,
    >)
        ensures
            final(self)@ == spec_start_spawning(old(self)@, template_path@, wall_mounted).0,
            effects@ == spec_start_spawning(old(self)@, template_path@, wall_mounted).1,
            state_wf(final(self)@),
    {
        let mut st = PlacementState::Previewing(
            PlacementPreview {
                kind: PreviewKind::New { template_path },
                position: Vec2 { x: 0, y: 0 },
                rotation: Orientation::new(Dir::facing_camera()),
                collides: false,
                allowed: true,
                cursor_offset: Some(Vec2 { x: 0, y: 0 }),
                wall_mounted,
            },
        );
        core::mem::swap(&mut st, &mut self.state);
        dispose_state(st)
    }

    /// Begins relocating an existing object from its committed pose; any
    /// existing preview is disposed of first, and the original is hidden
    /// and excluded from collision for the preview's lifetime.
    pub fn start_moving(
        &mut self,
        object: u64,
        position: Vec2,
        rotation: Orientation,
        wall_mounted: bool,
    ) -> (effects: Vec<Effect>)
        requires
            position.in_pos_bounds(),
            rotation.wf(),
        ensures
            final(self)@ == spec_start_moving(old(self)@, object, position, rotation, wall_mounted).0,
            effects@ == spec_start_moving(old(self)@, object, position, rotation, wall_mounted).1,
            state_wf(final(self)@),
    {
        let mut st = PlacementState::Previewing(
            PlacementPreview {
                kind: PreviewKind::Relocate { object },
                position,
                rotation,
                collides: false,
                allowed: true,
                cursor_offset: None,
                wall_mounted,
            },
        );
        core::mem::swap(&mut st, &mut self.state);
        let mut effects = dispose_state(st);
        effects.push(Effect::HideOriginal { object });
        effects
    }

    /// The tick's movement stage, fed the cursor's projection onto the
    /// world's surfaces.
    pub fn update_movement(&mut self, raw: Vec2)
        requires
            raw.in_bounds(),
            state_wf(old(self)@),
        ensures
            final(self)@ == spec_update_movement(old(self)@, raw),
            state_wf(final(self)@),
    {
        let mut st = PlacementState::Idle;
        core::mem::swap(&mut st, &mut self.state);
        self.state = match st {
            PlacementState::Previewing(pv) => {
                let off = match pv.cursor_offset {
                    Some(o) => o,
                    None => Vec2 { x: pv.position.x - raw.x, y: pv.position.y - raw.y },
                };
                let position = Vec2 {
                    x: clamp_pos(raw.x as i128 + off.x as i128),
                    y: clamp_pos(raw.y as i128 + off.y as i128),
                };
                PlacementState::Previewing(
                    PlacementPreview { position, cursor_offset: Some(off), ..pv },
                )
            },
            other => other,
        };
    }

    /// The tick's snap stage, fed the wall edges near the preview.
    pub fn update_snap(&mut self, edges: &Vec<Edge>)
        requires
            state_wf(old(self)@),
            forall|i: int| 0 <= i < edges@.len() ==> (#[trigger] edges@[i]).wf(),
        ensures
            final(self)@ == spec_update_snap(old(self)@, edges@),
            state_wf(final(self)@),
    {
        let mut st = PlacementState::Idle;
        core::mem::swap(&mut st, &mut self.state);
        self.state = match st {
            PlacementState::Previewing(pv) => {
                if pv.wall_mounted {
                    match resolve_snap(pv.position, edges) {
                        Some((position, dir)) => PlacementState::Previewing(
                            PlacementPreview {
                                position,
                                rotation: Orientation { base: dir, eighths: 0 },
                                allowed: true,
                                ..pv
                            },
                        ),
                        None => PlacementState::Previewing(
                            PlacementPreview { allowed: false, ..pv },
                        ),
                    }
                } else {
                    PlacementState::Previewing(pv)
                }
            },
            other => other,
        };
    }

    /// The tick's collision stage, fed the spatial query's verdict at the
    /// pose the earlier stages produced.
    pub fn update_collision(&mut self, collides: bool)
        requires
            state_wf(old(self)@),
        ensures
            final(self)@ == spec_update_collision(old(self)@, collides),
            state_wf(final(self)@),
    {
        let mut st = PlacementState::Idle;
        core::mem::swap(&mut st, &mut self.state);
        self.state = match st {
            PlacementState::Previewing(pv) => PlacementState::Previewing(
                PlacementPreview { collides, ..pv },
            ),
            other => other,
        };
    }

    /// A manual reorientation input.
    pub fn rotate(&mut self)
        requires
            state_wf(old(self)@),
        ensures
            final(self)@ == spec_rotate(old(self)@),
            state_wf(final(self)@),
    {
        let mut st = PlacementState::Idle;
        core::mem::swap(&mut st, &mut self.state);
        self.state = match st {
            PlacementState::Previewing(pv) => {
                let rotation = pv.rotation.step();
                PlacementState::Previewing(PlacementPreview { rotation, ..pv })
            },
            other => other,
        };
    }

    /// Whether no preview exists.
    pub fn is_idle(&self) -> (r: bool)
        ensures
            r == (self@ is Idle),
    {
        match &self.state {
            PlacementState::Idle => true,
            _ => false,
        }
    }

    /// Whether a live preview exists.
    pub fn is_previewing(&self) -> (r: bool)
        ensures
            r == (self@ is Previewing),
    {
        match &self.state {
            PlacementState::Previewing(_) => true,
            _ => false,
        }
    }

    /// Whether an inert preview is waiting for the authority's answer.
    pub fn is_awaiting_confirmation(&self) -> (r: bool)
        ensures
            r == (self@ is AwaitingConfirmation),
    {
        match &self.state {
            PlacementState::AwaitingConfirmation(_) => true,
            _ => false,
        }
    }

    /// The preview the machine holds, live or inert.
    pub fn current_preview(&self) -> (r: Option<&PlacementPreview>)
        ensures
            match self@ {
                StateModel::Idle => r is None,
                StateModel::Previewing(pv) => r matches Some(p) && p@ == pv,
                StateModel::AwaitingConfirmation(pv) => r matches Some(p) && p@ == pv,
            },
    {
        match &self.state {
            PlacementState::Idle => None,
            PlacementState::Previewing(pv) => Some(pv),
            PlacementState::AwaitingConfirmation(pv) => Some(pv),
        }
    }

    /// The tint the preview's materials should show this tick.
    pub fn material_tint(&self) -> (r: Tint)
        ensures
            r == spec_tint(self@),
    {
        match &self.state {
            PlacementState::Idle => Tint::Neutral,
            PlacementState::Previewing(pv) => if pv.collides || !pv.allowed {
                Tint::Warning
            } else {
                Tint::Neutral
            },
            PlacementState::AwaitingConfirmation(pv) => if pv.collides || !pv.allowed {
                Tint::Warning
            } else {
                Tint::Neutral
            },
        }
    }

    /// A confirm input: emits the preview's replication request when it is
    /// valid where it stands, and goes inert awaiting confirmation.
    pub fn confirm(&mut self) -> (request: Option<Request>)
        requires
            state_wf(old(self)@),
        ensures
            final(self)@ == spec_confirm(old(self)@).0,
            match spec_confirm(old(self)@).1 {
                Some(m) => request matches Some(q) && q@ == m,
                None => request is None,
            },
            state_wf(final(self)@),
    {
        let mut st = PlacementState::Idle;
        core::mem::swap(&mut st, &mut self.state);
        match st {
            PlacementState::Previewing(pv) => {
                if !pv.collides && pv.allowed {
                    let request = match &pv.kind {
                        PreviewKind::New { template_path } => Request::Spawn(
                            SpawnRequest {
                                template_path: clone_bytes(template_path),
                                position: pv.position,
                                rotation: pv.rotation,
                            },
                        ),
                        PreviewKind::Relocate { object } => Request::Move(
                            MoveRequest {
                                object: *object,
                                translation: Vec3 { x: pv.position.x, y: 0, z: pv.position.y },
                                rotation: pv.rotation,
                            },
                        ),
                    };
                    self.state = PlacementState::AwaitingConfirmation(pv);
                    Some(request)
                } else {
                    self.state = PlacementState::Previewing(pv);
                    None
                }
            },
            other => {
                self.state = other;
                None
            },
        }
    }

    /// A delete input: a relocation preview asks the authority to despawn
    /// its original object and is disposed of; a spawn preview is simply
    /// disposed of.
    pub fn delete(&mut self) -> (r: (Option<Request>, Vec<Effect>))
        requires
            state_wf(old(self)@),
        ensures
            final(self)@ == spec_delete(old(self)@).0,
            match spec_delete(old(self)@).1 {
                Some(m) => r.0 matches Some(q) && q@ == m,
                None => r.0 is None,
            },
            r.1@ == spec_delete(old(self)@).2,
            state_wf(final(self)@),
    {
        let mut st = PlacementState::Idle;
        core::mem::swap(&mut st, &mut self.state);
        match st {
            PlacementState::Previewing(pv) => match pv.kind {
                PreviewKind::Relocate { object } => {
                    let request = Request::Despawn(DespawnRequest { object });
                    let mut effects: Vec<Effect> = Vec::new();
                    effects.push(Effect::RestoreOriginal { object });
                    proof {
                        assert(effects@ =~= seq![Effect::RestoreOriginal { object }]);
                    }
                    (Some(request), effects)
                },
                PreviewKind::New { .. } => (None, Vec::new()),
            },
            other => {
                self.state = other;
                (None, Vec::new())
            },
        }
    }

    /// A cancel input, or a mode or state exit: disposes of whatever
    /// preview exists without emitting any request; a no-op when idle.
    pub fn cancel(&mut self) -> (effects: Vec<Effect>)
        ensures
            final(self)@ == spec_cancel(old(self)@).0,
            effects@ == spec_cancel(old(self)@).1,
            state_wf(final(self)@),
    {
        let mut st = PlacementState::Idle;
        core::mem::swap(&mut st, &mut self.state);
        dispose_state(st)
    }

    /// Receipt of the authority's confirmation addressed to this client.
    pub fn on_confirmation(&mut self) -> (effects: Vec<Effect>)
        requires
            state_wf(old(self)@),
        ensures
            final(self)@ == spec_on_confirmation(old(self)@).0,
            effects@ == spec_on_confirmation(old(self)@).1,
            state_wf(final(self)@),
    {
        let mut st = PlacementState::Idle;
        core::mem::swap(&mut st, &mut self.state);
        match st {
            PlacementState::AwaitingConfirmation(pv) => dispose_preview(pv),
            other => {
                self.state = other;
                Vec::new()
            },
        }
    }
}

/// Disposes of whatever preview a state holds, producing its effects.
fn dispose_state(st: PlacementState) -> (effects: Vec<Effect>)
    ensures
        effects@ == dispose_effects(st@),
{
    match st {
        PlacementState::Idle => Vec::new(),
        PlacementState::Previewing(pv) => dispose_preview(pv),
        PlacementState::AwaitingConfirmation(pv) => dispose_preview(pv),
    }
}

/// Disposes of one preview: a relocated original gets its visibility and
/// collision membership back.
fn dispose_preview(pv: PlacementPreview) -> (effects: Vec<Effect>)
    ensures
        effects@ == kind_dispose_effects(pv@.kind),
{
    match pv.kind {
        PreviewKind::New { .. } => Vec::new(),
        PreviewKind::Relocate { object } => {
            let mut effects: Vec<Effect> = Vec::new();
            effects.push(Effect::RestoreOriginal { object });
            proof {
                assert(effects@ =~= seq![Effect::RestoreOriginal { object }]);
            }
            effects
        },
    }
}

/// Copies the template path bytes, so a retained preview and the request
/// it emits each carry the reference.
fn clone_bytes(v: &Vec<u8>) -> (r: Vec<u8>)
    ensures
        r@ == v@,
{
    let mut r: Vec<u8> = Vec::new();
    let n = v.len();
    let mut i: usize = 0;
    while i < n
        invariant
            n == v@.len(),
            0 <= i <= n,
            r@ == v@.take(i as int),
        decreases n - i,
    {
        let c = v[i];
        r.push(c);
        proof {
            assert(r@ =~= v@.take(i as int + 1));
        }
        i += 1;
    }
    proof {
        assert(v@.take(n as int) =~= v@);
    }
    r
}

} // verus!
