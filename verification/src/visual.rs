//! Client-side visual bookkeeping for committed objects: whether each is
//! drawn, and which collision groups its colliders belong to. The
//! placement machine's effects act on this registry: picking an object up
//! hides the original and drops it from the object collision membership
//! (so the moving copy cannot collide with itself), and disposal restores
//! both.

use vstd::prelude::*;

use crate::orientation::Orientation;
use crate::geometry::Vec2;
use crate::placement::{
    preview_count, spec_start_moving, spec_start_spawning, Effect, KindModel, PreviewModel,
    StateModel,
};

verus! {

/// Collision membership bit of ground colliders.
pub const GROUP_GROUND: u32 = 1;

/// Collision membership bit of wall colliders.
pub const GROUP_WALL: u32 = 2;

/// Collision membership bit of committed placeable objects.
pub const GROUP_OBJECT: u32 = 4;

/// The visual state of one committed object on this client.
#[derive(Clone, Copy, PartialEq, Eq, Structural, Debug)]
pub struct ObjectVisual {
    /// The object's client-local id.
    pub object: u64,
    pub visible: bool,
    /// Collision group membership bits of the object's colliders.
    pub groups: u32,
}

/// Index of the entry for `object`, or `-1` when it has none.
pub open spec fn find_visual(s: Seq<ObjectVisual>, object: u64, i: int) -> int
    decreases s.len() - i,
{
    if i < 0 || i >= s.len() {
        -1
    } else if s[i].object == object {
        i
    } else {
        find_visual(s, object, i + 1)
    }
}

/// One effect applied to the registry: an absent object is left alone (it
/// may have been removed by replication in the meantime).
pub open spec fn apply_effect_spec(s: Seq<ObjectVisual>, e: Effect) -> Seq<ObjectVisual> {
    match e {
        Effect::HideOriginal { object } => {
            let i = find_visual(s, object, 0);
            if i == -1 {
                s
            } else {
                s.update(
                    i,
                    ObjectVisual { object, visible: false, groups: s[i].groups & !GROUP_OBJECT },
                )
            }
        },
        Effect::RestoreOriginal { object } => {
            let i = find_visual(s, object, 0);
            if i == -1 {
                s
            } else {
                s.update(
                    i,
                    ObjectVisual { object, visible: true, groups: s[i].groups | GROUP_OBJECT },
                )
            }
        },
    }
}

/// A whole batch of effects applied in order.
pub open spec fn apply_effects_spec(s: Seq<ObjectVisual>, effects: Seq<Effect>) -> Seq<
    ObjectVisual,
>
    decreases effects.len(),
{
    if effects.len() == 0 {
        s
    } else {
        apply_effects_spec(apply_effect_spec(s, effects[0]), effects.skip(1))
    }
}

/// The registry of committed objects' visual state on this client.
pub struct VisualRegistry {
    entries: Vec<ObjectVisual>,
}

impl View for VisualRegistry {
    type V = Seq<ObjectVisual>;

    closed spec fn view(&self) -> Seq<ObjectVisual> {
        self.entries@
    }
}

impl VisualRegistry {
    pub fn new() -> (r: VisualRegistry)
        ensures
            r@ == Seq::<ObjectVisual>::empty(),
    {
        VisualRegistry { entries: Vec::new() }
    }

    /// Records a committed object as it is replicated in.
    pub fn register(&mut self, entry: ObjectVisual)
        ensures
            final(self)@ == old(self)@.push(entry),
    {
        self.entries.push(entry);
    }

    /// The entry for `object`, if it has one.
    pub fn get(&self, object: u64) -> (r: Option<ObjectVisual>)
        ensures
            r == if find_visual(self@, object, 0) == -1 {
                None::<ObjectVisual>
            } else {
                Some(self@[find_visual(self@, object, 0)])
            },
    {
        let n = self.entries.len();
        let mut idx: usize = 0;
        while idx < n
            invariant
                n == self.entries@.len(),
                0 <= idx <= n,
                find_visual(self.entries@, object, 0) == find_visual(
                    self.entries@,
                    object,
                    idx as int,
                ),
            decreases n - idx,
        {
            if self.entries[idx].object == object {
                return Some(self.entries[idx]);
            }
            idx += 1;
        }
        None
    }

    /// Applies one placement effect to the registry.
    pub fn apply(&mut self, effect: Effect)
        ensures
            final(self)@ == apply_effect_spec(old(self)@, effect),
    {
        let (object, visible) = match effect {
            Effect::HideOriginal { object } => (object, false),
            Effect::RestoreOriginal { object } => (object, true),
        };
        let n = self.entries.len();
        let mut idx: usize = 0;
        while idx < n
            invariant
                n == self.entries@.len(),
                0 <= idx <= n,
                self.entries@ == old(self).entries@,
                (match effect {
                    Effect::HideOriginal { object: o } => o == object && !visible,
                    Effect::RestoreOriginal { object: o } => o == object && visible,
                }),
                find_visual(self.entries@, object, 0) == find_visual(
                    self.entries@,
                    object,
                    idx as int,
                ),
            decreases n - idx,
        {
            if self.entries[idx].object == object {
                proof {
                    assert(find_visual(self.entries@, object, idx as int) == idx as int);
                }
                let groups = if visible {
                    self.entries[idx].groups | GROUP_OBJECT
                } else {
                    self.entries[idx].groups & !GROUP_OBJECT
                };
                self.entries[idx] = ObjectVisual { object, visible, groups };
                return;
            }
            idx += 1;
        }
    }

    /// Applies a batch of effects in order.
    pub fn apply_all(&mut self, effects: &Vec<Effect>)
        ensures
            final(self)@ == apply_effects_spec(old(self)@, effects@),
    {
        let n = effects.len();
        let mut idx: usize = 0;
        proof {
            assert(effects@.skip(0) =~= effects@);
        }
        while idx < n
            invariant
                n == effects@.len(),
                0 <= idx <= n,
                apply_effects_spec(old(self)@, effects@) == apply_effects_spec(
                    self@,
                    effects@.skip(idx as int),
                ),
            decreases n - idx,
        {
            proof {
                assert(effects@.skip(idx as int)[0] == effects@[idx as int]);
                assert(effects@.skip(idx as int).skip(1) =~= effects@.skip(idx as int + 1));
            }
            self.apply(effects[idx]);
            idx += 1;
        }
        proof {
            assert(effects@.skip(n as int) =~= Seq::<Effect>::empty());
        }
    }
}

/// A restored object is drawn and carries the object collision membership
/// bit again: applying a restore effect to a registered object makes its
/// entry visible with the bit set.
pub proof fn lemma_restore_restores(s: Seq<ObjectVisual>, object: u64)
    requires
        find_visual(s, object, 0) != -1,
    ensures
        ({
            let t = apply_effect_spec(s, Effect::RestoreOriginal { object });
            let i = find_visual(s, object, 0);
            &&& 0 <= i < t.len()
            &&& t[i].object == object
            &&& t[i].visible
            &&& t[i].groups & GROUP_OBJECT == GROUP_OBJECT
        }),
{
    lemma_find_visual_in_range(s, object, 0);
    let i = find_visual(s, object, 0);
    let t = apply_effect_spec(s, Effect::RestoreOriginal { object });
    let g_old = s[i].groups;
    let g_new = t[i].groups;
    assert(g_new == g_old | GROUP_OBJECT);
    assert(g_new & 4u32 == 4u32) by (bit_vector)
        requires
            g_new == g_old | 4u32,
    ;
}

/// Exclusivity of previews, end to end: creating a second preview while
/// one exists leaves exactly one preview, and when the discarded preview
/// was relocating a registered object, applying the emitted effects to the
/// registry restores that object's visibility and collision membership.
pub proof fn lemma_exclusivity_restores(
    st: StateModel,
    reg: Seq<ObjectVisual>,
    template_path: Seq<u8>,
    wall_mounted: bool,
    pv: PreviewModel,
    object: u64,
)
    requires
        st == StateModel::Previewing(pv) || st == StateModel::AwaitingConfirmation(pv),
        pv.kind == (KindModel::Relocate { object }),
        find_visual(reg, object, 0) != -1,
    ensures
        preview_count(spec_start_spawning(st, template_path, wall_mounted).0) == 1,
        ({
            let t = apply_effects_spec(reg, spec_start_spawning(st, template_path, wall_mounted).1);
            let i = find_visual(reg, object, 0);
            &&& 0 <= i < t.len()
            &&& t[i].object == object
            &&& t[i].visible
            &&& t[i].groups & GROUP_OBJECT == GROUP_OBJECT
        }),
{
    let eff = spec_start_spawning(st, template_path, wall_mounted).1;
    assert(eff =~= seq![Effect::RestoreOriginal { object }]);
    assert(eff.len() == 1 && eff[0] == Effect::RestoreOriginal { object });
    assert(eff.skip(1) =~= Seq::<Effect>::empty());
    let reg1 = apply_effect_spec(reg, Effect::RestoreOriginal { object });
    assert(apply_effects_spec(reg, eff) == apply_effects_spec(reg1, eff.skip(1)));
    assert(apply_effects_spec(reg1, eff.skip(1)) == reg1);
    lemma_restore_restores(reg, object);
}

/// The same exclusivity holds when the second preview relocates another
/// object: the discarded preview's original is restored first, before the
/// newly grabbed object is hidden.
pub proof fn lemma_exclusivity_restores_on_grab(
    st: StateModel,
    reg: Seq<ObjectVisual>,
    grabbed: u64,
    position: Vec2,
    rotation: Orientation,
    wall_mounted: bool,
    pv: PreviewModel,
    object: u64,
)
    requires
        st == StateModel::Previewing(pv) || st == StateModel::AwaitingConfirmation(pv),
        pv.kind == (KindModel::Relocate { object }),
        find_visual(reg, object, 0) != -1,
        grabbed != object,
    ensures
        preview_count(spec_start_moving(st, grabbed, position, rotation, wall_mounted).0) == 1,
        ({
            let t = apply_effects_spec(
                reg,
                spec_start_moving(st, grabbed, position, rotation, wall_mounted).1,
            );
            let i = find_visual(reg, object, 0);
            &&& 0 <= i < t.len()
            &&& t[i].object == object
            &&& t[i].visible
            &&& t[i].groups & GROUP_OBJECT == GROUP_OBJECT
        }),
{
    let eff = spec_start_moving(st, grabbed, position, rotation, wall_mounted).1;
    let restore = Effect::RestoreOriginal { object };
    let hide = Effect::HideOriginal { object: grabbed };
    assert(eff =~= seq![restore, hide]);
    assert(eff.len() == 2 && eff[0] == restore && eff[1] == hide);
    let reg1 = apply_effect_spec(reg, restore);
    assert(eff.skip(1) =~= seq![hide]);
    assert(eff.skip(1).skip(1) =~= Seq::<Effect>::empty());
    let reg2 = apply_effect_spec(reg1, hide);
    assert(apply_effects_spec(reg, eff) == apply_effects_spec(reg1, eff.skip(1)));
    assert(eff.skip(1)[0] == hide);
    assert(apply_effects_spec(reg1, eff.skip(1)) == apply_effects_spec(reg2, eff.skip(1).skip(1)));
    assert(apply_effects_spec(reg2, eff.skip(1).skip(1)) == reg2);
    lemma_restore_restores(reg, object);
    let i = find_visual(reg, object, 0);
    lemma_find_visual_in_range(reg, object, 0);
    // Hiding the newly grabbed object leaves the restored entry alone.
    let j = find_visual(reg1, grabbed, 0);
    if j != -1 {
        lemma_find_visual_in_range(reg1, grabbed, 0);
        assert(reg1[j].object == grabbed);
        assert(reg1[i].object == object);
        assert(j != i);
        assert(reg2[i] == reg1[i]);
    }
}

/// A found index is a real index and carries the object.
pub proof fn lemma_find_visual_in_range(s: Seq<ObjectVisual>, object: u64, i: int)
    requires
        0 <= i <= s.len(),
    ensures
        find_visual(s, object, i) == -1 || (i <= find_visual(s, object, i) < s.len() && s[
        find_visual(s, object, i)].object == object),
    decreases s.len() - i,
{
    if i < s.len() && s[i].object != object {
        lemma_find_visual_in_range(s, object, i + 1);
    }
}

} // verus!
