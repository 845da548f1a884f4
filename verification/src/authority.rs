//! The authority validator: the single owner of the authoritative world.
//!
//! It accepts translated replication requests, checks their domain
//! constraints — a spawn's lateral position must fall inside the world's
//! band and strictly inside some city's span, a move or despawn must name
//! an object that exists — mutates the world, and answers each accepted
//! request with a confirmation unicast to the requesting client. A request
//! that fails validation is dropped: the world does not change and no
//! confirmation is sent.

use vstd::prelude::*;

use crate::geometry::{Vec2, Vec3, V2, COORD_LIMIT};
use crate::orientation::Orientation;
use crate::protocol::{
    Confirmation, DespawnRequest, MoveRequest, Request, RequestModel, SpawnModel, SpawnRequest,
};

verus! {

/// Half the lateral span of one city, in coordinate counts.
pub const HALF_CITY_SIZE: i64 = 50_000;

/// Distance between the centers of consecutively placed cities.
pub const CITY_SIZE: i64 = 100_000;

/// A city: a spatial partition owning the objects whose lateral coordinate
/// falls strictly inside its span. Cities are laid out along one axis,
/// each a fixed distance from the last.
#[derive(Clone, Copy, PartialEq, Eq, Structural, Debug)]
pub struct City {
    pub id: u64,
    pub center_x: i64,
}

/// A lot: a polygonal partition inside a city; an object placed inside the
/// polygon belongs to the lot rather than to the bare city.
#[derive(Clone, PartialEq, Eq, Debug)]
pub struct Lot {
    pub id: u64,
    pub vertices: Vec<Vec2>,
}

/// Specification-level image of a `Lot`.
#[verifier::ext_equal]
pub struct LotModel {
    pub id: u64,
    pub vertices: Seq<Vec2>,
}

impl View for Lot {
    type V = LotModel;

    open spec fn view(&self) -> LotModel {
        LotModel { id: self.id, vertices: self.vertices@ }
    }
}

/// A committed object in the authoritative world, replicated to clients.
#[derive(Clone, PartialEq, Eq, Debug)]
pub struct PlacedObject {
    /// The shared network identity.
    pub id: u64,
    pub template_path: Vec<u8>,
    pub translation: Vec3,
    pub rotation: Orientation,
    /// Id of the owning container: a lot or a city.
    pub container: u64,
}

/// Specification-level image of a `PlacedObject`.
#[verifier::ext_equal]
pub struct ObjectModel {
    pub id: u64,
    pub template_path: Seq<u8>,
    pub translation: Vec3,
    pub rotation: Orientation,
    pub container: u64,
}

impl View for PlacedObject {
    type V = ObjectModel;

    open spec fn view(&self) -> ObjectModel {
        ObjectModel {
            id: self.id,
            template_path: self.template_path@,
            translation: self.translation,
            rotation: self.rotation,
            container: self.container,
        }
    }
}

/// Specification-level image of the authoritative world.
#[verifier::ext_equal]
pub struct WorldModel {
    pub cities: Seq<City>,
    pub lots: Seq<LotModel>,
    pub objects: Seq<ObjectModel>,
    pub next_id: u64,
    pub placed_cities: u64,
}

pub open spec fn world_wf(w: WorldModel) -> bool {
    &&& forall|i: int|
        0 <= i < w.cities.len() ==> (#[trigger] w.cities[i]).id < w.next_id && -(
        COORD_LIMIT as int) <= w.cities[i].center_x <= COORD_LIMIT as int
    &&& forall|i: int|
        0 <= i < w.lots.len() ==> (#[trigger] w.lots[i]).id < w.next_id && (forall|j: int|
            0 <= j < w.lots[i].vertices.len() ==> (#[trigger] w.lots[i].vertices[j]).in_bounds())
    &&& forall|i: int| 0 <= i < w.objects.len() ==> (#[trigger] w.objects[i]).id < w.next_id
    &&& forall|i: int, j: int|
        0 <= i < j < w.objects.len() ==> (#[trigger] w.objects[i]).id != (
        #[trigger] w.objects[j]).id
}

/// Whether the city's span strictly contains lateral coordinate `x`.
pub open spec fn city_contains(c: City, x: int) -> bool {
    -(HALF_CITY_SIZE as int) < x - c.center_x < HALF_CITY_SIZE as int
}

/// Index of the first city whose span strictly contains `x`, scanning from
/// `i`; `-1` when there is none.
pub open spec fn first_city_from(cities: Seq<City>, x: int, i: int) -> int
    decreases cities.len() - i,
{
    if i < 0 || i >= cities.len() {
        -1
    } else if city_contains(cities[i], x) {
        i
    } else {
        first_city_from(cities, x, i + 1)
    }
}

pub open spec fn first_city_index(cities: Seq<City>, x: int) -> int {
    first_city_from(cities, x, 0)
}

/// No city index exactly when no city's span contains `x`.
pub proof fn lemma_no_city_means_all_outside(cities: Seq<City>, x: int, i: int)
    requires
        0 <= i <= cities.len(),
    ensures
        (first_city_from(cities, x, i) == -1) <==> (forall|j: int|
            i <= j < cities.len() ==> !city_contains(#[trigger] cities[j], x)),
    decreases cities.len() - i,
{
    if i < cities.len() {
        lemma_no_city_means_all_outside(cities, x, i + 1);
    }
}

/// Whether the directed polygon edge from `a` to `b` crosses the
/// horizontal ray running from `p` toward smaller first coordinates, in
/// the exact cross-multiplied form of the even-odd rule.
pub open spec fn edge_crosses(a: Vec2, b: Vec2, p: V2) -> bool {
    ((a@.y > p.y) != (b@.y > p.y)) && {
        let lhs = (p.x - a@.x) * (b@.y - a@.y);
        let rhs = (b@.x - a@.x) * (p.y - a@.y);
        if b@.y > a@.y {
            lhs < rhs
        } else {
            lhs > rhs
        }
    }
}

/// Number of polygon edges, from the `i`-th on, crossing the ray from `p`;
/// the edge from the last vertex back to the first closes the polygon.
pub open spec fn crossings_from(vs: Seq<Vec2>, p: V2, i: int) -> nat
    decreases vs.len() - i,
{
    if i < 0 || i >= vs.len() {
        0
    } else {
        let j = if i + 1 == vs.len() {
            0
        } else {
            i + 1
        };
        (if edge_crosses(vs[i], vs[j], p) {
            1nat
        } else {
            0nat
        }) + crossings_from(vs, p, i + 1)
    }
}

/// Even-odd polygon containment: the point is inside when the ray from it
/// crosses an odd number of edges.
pub open spec fn polygon_contains(vs: Seq<Vec2>, p: V2) -> bool {
    crossings_from(vs, p, 0) % 2 == 1
}

/// Index of the first lot whose polygon contains `p`, scanning from `i`;
/// `-1` when there is none.
pub open spec fn first_lot_from(lots: Seq<LotModel>, p: V2, i: int) -> int
    decreases lots.len() - i,
{
    if i < 0 || i >= lots.len() {
        -1
    } else if polygon_contains(lots[i].vertices, p) {
        i
    } else {
        first_lot_from(lots, p, i + 1)
    }
}

pub open spec fn first_lot_index(lots: Seq<LotModel>, p: V2) -> int {
    first_lot_from(lots, p, 0)
}

/// No lot index exactly when no lot's polygon contains `p`.
pub proof fn lemma_no_lot_means_all_outside(lots: Seq<LotModel>, p: V2, i: int)
    requires
        0 <= i <= lots.len(),
    ensures
        (first_lot_from(lots, p, i) == -1) <==> (forall|j: int|
            i <= j < lots.len() ==> !polygon_contains((#[trigger] lots[j]).vertices, p)),
    decreases lots.len() - i,
{
    if i < lots.len() {
        lemma_no_lot_means_all_outside(lots, p, i + 1);
    }
}

/// Whether the spawn position's second lateral coordinate falls within the
/// world's band.
pub open spec fn spawn_lateral_ok(position: Vec2) -> bool {
    -(HALF_CITY_SIZE as int) <= position.y as int <= HALF_CITY_SIZE as int
}

/// Whether a spawn at this position passes validation: within the world's
/// lateral band, and strictly inside some city's span.
pub open spec fn spawn_accepted(w: WorldModel, position: Vec2) -> bool {
    spawn_lateral_ok(position) && first_city_index(w.cities, position.x as int) != -1
}

/// The container an accepted spawn lands in: the first lot whose polygon
/// contains the point, else the first city whose span contains it.
pub open spec fn spawn_container(w: WorldModel, position: Vec2) -> u64 {
    let li = first_lot_index(w.lots, position@);
    if li != -1 {
        w.lots[li].id
    } else {
        w.cities[first_city_index(w.cities, position.x as int)].id
    }
}

/// The object an accepted spawn creates.
pub open spec fn spawned_object(w: WorldModel, s: SpawnModel) -> ObjectModel {
    ObjectModel {
        id: w.next_id,
        template_path: s.template_path,
        translation: Vec3 { x: s.position.x, y: 0i64, z: s.position.y },
        rotation: s.rotation,
        container: spawn_container(w, s.position),
    }
}

/// The spawn handler's transition: validate, instantiate under the owning
/// container, confirm; or drop the request whole.
pub open spec fn spec_handle_spawn(w: WorldModel, client: u64, s: SpawnModel) -> (
    WorldModel,
    Option<Confirmation>,
) {
    if spawn_accepted(w, s.position) {
        (
            WorldModel {
                objects: w.objects.push(spawned_object(w, s)),
                next_id: (w.next_id + 1) as u64,
                ..w
            },
            Some(Confirmation { client }),
        )
    } else {
        (w, None)
    }
}

/// Index of the object with the given shared identity, scanning from `i`;
/// `-1` when there is none.
pub open spec fn find_object_from(objects: Seq<ObjectModel>, id: u64, i: int) -> int
    decreases objects.len() - i,
{
    if i < 0 || i >= objects.len() {
        -1
    } else if objects[i].id == id {
        i
    } else {
        find_object_from(objects, id, i + 1)
    }
}

pub open spec fn find_object_index(objects: Seq<ObjectModel>, id: u64) -> int {
    find_object_from(objects, id, 0)
}

/// No object index exactly when no object carries the identity.
pub proof fn lemma_no_object_means_absent(objects: Seq<ObjectModel>, id: u64, i: int)
    requires
        0 <= i <= objects.len(),
    ensures
        (find_object_from(objects, id, i) == -1) <==> (forall|j: int|
            i <= j < objects.len() ==> (#[trigger] objects[j]).id != id),
    decreases objects.len() - i,
{
    if i < objects.len() {
        lemma_no_object_means_absent(objects, id, i + 1);
    }
}

/// The move handler's transition: update the named object's pose and
/// confirm, or drop the request when the identity resolves to nothing.
pub open spec fn spec_handle_move(w: WorldModel, client: u64, m: MoveRequest) -> (
    WorldModel,
    Option<Confirmation>,
) {
    let fi = find_object_index(w.objects, m.object);
    if fi == -1 {
        (w, None)
    } else {
        (
            WorldModel {
                objects: w.objects.update(
                    fi,
                    ObjectModel {
                        translation: m.translation,
                        rotation: m.rotation,
                        ..w.objects[fi]
                    },
                ),
                ..w
            },
            Some(Confirmation { client }),
        )
    }
}

/// The despawn handler's transition: remove the named object and confirm,
/// or drop the request when the identity resolves to nothing.
pub open spec fn spec_handle_despawn(w: WorldModel, client: u64, d: DespawnRequest) -> (
    WorldModel,
    Option<Confirmation>,
) {
    let fi = find_object_index(w.objects, d.object);
    if fi == -1 {
        (w, None)
    } else {
        (WorldModel { objects: w.objects.remove(fi), ..w }, Some(Confirmation { client }))
    }
}

/// One translated request dispatched to its handler.
pub open spec fn spec_handle_request(w: WorldModel, client: u64, m: RequestModel) -> (
    WorldModel,
    Option<Confirmation>,
) {
    match m {
        RequestModel::Spawn(s) => spec_handle_spawn(w, client, s),
        RequestModel::Move(mv) => spec_handle_move(w, client, mv),
        RequestModel::Despawn(d) => spec_handle_despawn(w, client, d),
    }
}

/// A spawn whose lateral position sits within the world's band and
/// strictly inside some city's span is accepted: the world gains exactly
/// the requested object, owned by the first lot whose polygon contains the
/// point, or by the containing city when no lot does.
pub proof fn lemma_spawn_inside_accepted(w: WorldModel, client: u64, s: SpawnModel)
    requires
        world_wf(w),
        spawn_lateral_ok(s.position),
        exists|i: int|
            0 <= i < w.cities.len() && city_contains(#[trigger] w.cities[i], s.position.x as int),
    ensures
        spec_handle_spawn(w, client, s).1 == Some(Confirmation { client }),
        spec_handle_spawn(w, client, s).0.objects == w.objects.push(spawned_object(w, s)),
        ({
            let obj = spawned_object(w, s);
            let li = first_lot_index(w.lots, s.position@);
            &&& obj.template_path == s.template_path
            &&& obj.id == w.next_id
            &&& if li != -1 {
                obj.container == w.lots[li].id && polygon_contains(w.lots[li].vertices, s.position@)
                    && (forall|j: int|
                    0 <= j < li ==> !polygon_contains((#[trigger] w.lots[j]).vertices, s.position@))
            } else {
                (forall|j: int|
                    0 <= j < w.lots.len() ==> !polygon_contains(
                        (#[trigger] w.lots[j]).vertices,
                        s.position@,
                    )) && {
                    let ci = first_city_index(w.cities, s.position.x as int);
                    0 <= ci < w.cities.len() && obj.container == w.cities[ci].id && city_contains(
                        w.cities[ci],
                        s.position.x as int,
                    )
                }
            }
        }),
{
    lemma_no_city_means_all_outside(w.cities, s.position.x as int, 0);
    lemma_first_city_found_contains(w.cities, s.position.x as int, 0);
    lemma_no_lot_means_all_outside(w.lots, s.position@, 0);
    let li = first_lot_index(w.lots, s.position@);
    if li != -1 {
        lemma_first_lot_found_contains(w.lots, s.position@, 0);
    }
}

/// A found city index is a real index whose city contains `x`, and no
/// earlier city does.
pub proof fn lemma_first_city_found_contains(cities: Seq<City>, x: int, i: int)
    requires
        0 <= i <= cities.len(),
    ensures
        first_city_from(cities, x, i) != -1 ==> {
            let ci = first_city_from(cities, x, i);
            &&& i <= ci < cities.len()
            &&& city_contains(cities[ci], x)
            &&& forall|j: int| i <= j < ci ==> !city_contains(#[trigger] cities[j], x)
        },
    decreases cities.len() - i,
{
    if i < cities.len() && !city_contains(cities[i], x) {
        lemma_first_city_found_contains(cities, x, i + 1);
    }
}

/// A found lot index is a real index whose polygon contains `p`, and no
/// earlier lot's polygon does.
pub proof fn lemma_first_lot_found_contains(lots: Seq<LotModel>, p: V2, i: int)
    requires
        0 <= i <= lots.len(),
    ensures
        first_lot_from(lots, p, i) != -1 ==> {
            let li = first_lot_from(lots, p, i);
            &&& i <= li < lots.len()
            &&& polygon_contains(lots[li].vertices, p)
            &&& forall|j: int| i <= j < li ==> !polygon_contains((#[trigger] lots[j]).vertices, p)
        },
    decreases lots.len() - i,
{
    if i < lots.len() && !polygon_contains(lots[i].vertices, p) {
        lemma_first_lot_found_contains(lots, p, i + 1);
    }
}

/// A spawn whose lateral coordinate lies outside every city's span — or
/// beyond the world's lateral band — is rejected whole: no object is
/// created, the world does not change, and no confirmation is sent.
pub proof fn lemma_spawn_outside_rejected(w: WorldModel, client: u64, s: SpawnModel)
    requires
        !spawn_lateral_ok(s.position) || forall|i: int|
            0 <= i < w.cities.len() ==> !city_contains(#[trigger] w.cities[i], s.position.x as int),
    ensures
        spec_handle_spawn(w, client, s) == (w, None::<Confirmation>),
{
    lemma_no_city_means_all_outside(w.cities, s.position.x as int, 0);
}

/// Updating one object's pose preserves the world's well-formedness.
proof fn lemma_wf_after_pose_update(w0: WorldModel, w1: WorldModel, fi: int)
    requires
        world_wf(w0),
        0 <= fi < w0.objects.len(),
        w1.cities == w0.cities,
        w1.lots == w0.lots,
        w1.next_id == w0.next_id,
        w1.objects.len() == w0.objects.len(),
        forall|i: int|
            0 <= i < w1.objects.len() ==> (#[trigger] w1.objects[i]).id == w0.objects[i].id,
    ensures
        world_wf(w1),
{
    assert forall|i: int| 0 <= i < w1.objects.len() implies (#[trigger] w1.objects[i]).id
        < w1.next_id by {
        assert(w0.objects[i].id < w0.next_id);
    }
    assert forall|i: int, j: int| 0 <= i < j < w1.objects.len() implies (
    #[trigger] w1.objects[i]).id != (#[trigger] w1.objects[j]).id by {
        assert(w0.objects[i].id != w0.objects[j].id);
    }
}

/// Removing one object preserves the world's well-formedness.
proof fn lemma_wf_after_remove(w0: WorldModel, w1: WorldModel, fi: int)
    requires
        world_wf(w0),
        0 <= fi < w0.objects.len(),
        w1.cities == w0.cities,
        w1.lots == w0.lots,
        w1.next_id == w0.next_id,
        w1.objects == w0.objects.remove(fi),
    ensures
        world_wf(w1),
{
    assert forall|i: int| 0 <= i < w1.objects.len() implies (#[trigger] w1.objects[i]).id
        < w1.next_id by {
        if i < fi {
            assert(w1.objects[i] == w0.objects[i]);
        } else {
            assert(w1.objects[i] == w0.objects[i + 1]);
        }
    }
    assert forall|i: int, j: int| 0 <= i < j < w1.objects.len() implies (
    #[trigger] w1.objects[i]).id != (#[trigger] w1.objects[j]).id by {
        let i0 = if i < fi {
            i
        } else {
            i + 1
        };
        let j0 = if j < fi {
            j
        } else {
            j + 1
        };
        assert(w1.objects[i] == w0.objects[i0]);
        assert(w1.objects[j] == w0.objects[j0]);
    }
}

/// Tests one polygon edge of the even-odd rule, exactly.
fn edge_crosses_exec(a: Vec2, b: Vec2, p: Vec2) -> (r: bool)
    requires
        a.in_bounds(),
        b.in_bounds(),
    ensures
        r == edge_crosses(a, b, p@),
{
    if (a.y > p.y) != (b.y > p.y) {
        proof {
            crate::geometry::lemma_mul_bound(
                p.x as int - a.x as int,
                b.y as int - a.y as int,
                9_223_372_037_354_775_808,
                1_000_000,
            );
            crate::geometry::lemma_mul_bound(
                b.x as int - a.x as int,
                p.y as int - a.y as int,
                1_000_000,
                9_223_372_037_354_775_808,
            );
        }
        let lhs = (p.x as i128 - a.x as i128) * (b.y as i128 - a.y as i128);
        let rhs = (b.x as i128 - a.x as i128) * (p.y as i128 - a.y as i128);
        if b.y > a.y {
            lhs < rhs
        } else {
            lhs > rhs
        }
    } else {
        false
    }
}

/// Even-odd point-in-polygon test, exact over the integers.
pub fn polygon_contains_point(vertices: &Vec<Vec2>, p: Vec2) -> (r: bool)
    requires
        forall|i: int| 0 <= i < vertices@.len() ==> (#[trigger] vertices@[i]).in_bounds(),
    ensures
        r == polygon_contains(vertices@, p@),
{
    let n = vertices.len();
    let mut inside = false;
    let mut idx: usize = 0;
    while idx < n
        invariant
            n == vertices@.len(),
            0 <= idx <= n,
            forall|i: int| 0 <= i < vertices@.len() ==> (#[trigger] vertices@[i]).in_bounds(),
            polygon_contains(vertices@, p@) == (inside != (crossings_from(vertices@, p@, idx as int)
                % 2 == 1)),
        decreases n - idx,
    {
        let a = vertices[idx];
        let jdx = if idx + 1 == n {
            0
        } else {
            idx + 1
        };
        let b = vertices[jdx];
        if edge_crosses_exec(a, b, p) {
            inside = !inside;
        }
        idx += 1;
    }
    inside
}

/// The authoritative world and its sole owner.
pub struct Authority {
    cities: Vec<City>,
    lots: Vec<Lot>,
    objects: Vec<PlacedObject>,
    next_id: u64,
    placed_cities: u64,
}

impl View for Authority {
    type V = WorldModel;

    closed spec fn view(&self) -> WorldModel {
        WorldModel {
            cities: self.cities@,
            lots: self.lots@.map_values(|l: Lot| l@),
            objects: self.objects@.map_values(|o: PlacedObject| o@),
            next_id: self.next_id,
            placed_cities: self.placed_cities,
        }
    }
}

impl Authority {
    pub fn new() -> (r: Authority)
        ensures
            r@ == (WorldModel {
                cities: Seq::empty(),
                lots: Seq::empty(),
                objects: Seq::empty(),
                next_id: 0u64,
                placed_cities: 0u64,
            }),
            world_wf(r@),
    {
        let r = Authority {
            cities: Vec::new(),
            lots: Vec::new(),
            objects: Vec::new(),
            next_id: 0,
            placed_cities: 0,
        };
        proof {
            assert(r.lots@.map_values(|l: Lot| l@) =~= Seq::<LotModel>::empty());
            assert(r.objects@.map_values(|o: PlacedObject| o@) =~= Seq::<ObjectModel>::empty());
        }
        r
    }

    /// Places the next city one city-size further along the row than the
    /// last, as the counter of placed cities says; the counter never
    /// decreases when a city is removed, so every city gets a fresh spot.
    pub fn add_city(&mut self) -> (r: u64)
        requires
            world_wf(old(self)@),
            old(self)@.next_id < u64::MAX,
            old(self)@.placed_cities <= 5,
        ensures
            final(self)@ == (WorldModel {
                cities: old(self)@.cities.push(
                    City {
                        id: old(self)@.next_id,
                        center_x: (old(self)@.placed_cities as int * CITY_SIZE as int) as i64,
                    },
                ),
                next_id: (old(self)@.next_id + 1) as u64,
                placed_cities: (old(self)@.placed_cities + 1) as u64,
                ..old(self)@
            }),
            r == old(self)@.next_id,
            world_wf(final(self)@),
    {
        proof {
            assert(0 <= self.placed_cities as int * CITY_SIZE as int <= 500_000)
                by (nonlinear_arith)
                requires
                    0 <= self.placed_cities <= 5,
            ;
        }
        let center_x = (self.placed_cities as i64) * CITY_SIZE;
        let id = self.next_id;
        self.cities.push(City { id, center_x });
        self.next_id = self.next_id + 1;
        self.placed_cities = self.placed_cities + 1;
        id
    }

    /// Resets the counter of placed cities, as a world unload does.
    pub fn reset_placed_cities(&mut self)
        ensures
            final(self)@ == (WorldModel { placed_cities: 0u64, ..old(self)@ }),
    {
        self.placed_cities = 0;
    }

    /// Accepts a client's lot-spawn request: the lot is created and a
    /// confirmation is unicast back.
    pub fn add_lot(&mut self, client: u64, vertices: Vec<Vec2>) -> (r: (u64, Confirmation))
        requires
            world_wf(old(self)@),
            old(self)@.next_id < u64::MAX,
            forall|i: int| 0 <= i < vertices@.len() ==> (#[trigger] vertices@[i]).in_bounds(),
        ensures
            final(self)@ == (WorldModel {
                lots: old(self)@.lots.push(LotModel { id: old(self)@.next_id, vertices: vertices@ }),
                next_id: (old(self)@.next_id + 1) as u64,
                ..old(self)@
            }),
            r == (old(self)@.next_id, Confirmation { client }),
            world_wf(final(self)@),
    {
        let id = self.next_id;
        self.lots.push(Lot { id, vertices });
        self.next_id = self.next_id + 1;
        proof {
            assert(self.lots@.map_values(|l: Lot| l@) =~= old(self).lots@.map_values(|l: Lot| l@)
                .push(self.lots@.last()@));
        }
        (id, Confirmation { client })
    }

    pub fn object_count(&self) -> (r: usize)
        ensures
            r == self@.objects.len(),
    {
        self.objects.len()
    }

    /// The identity the next accepted spawn, city or lot will get.
    pub fn next_identity(&self) -> (r: u64)
        ensures
            r == self@.next_id,
    {
        self.next_id
    }

    pub fn city_count(&self) -> (r: usize)
        ensures
            r == self@.cities.len(),
    {
        self.cities.len()
    }

    /// The committed object with the given shared identity, if any.
    pub fn get_object(&self, id: u64) -> (r: Option<&PlacedObject>)
        ensures
            (r is None) <==> find_object_index(self@.objects, id) == -1,
            r matches Some(o) ==> o@ == self@.objects[find_object_index(self@.objects, id)],
    {
        let n = self.objects.len();
        let mut idx: usize = 0;
        while idx < n
            invariant
                n == self.objects@.len(),
                0 <= idx <= n,
                find_object_index(self@.objects, id) == find_object_from(
                    self@.objects,
                    id,
                    idx as int,
                ),
            decreases n - idx,
        {
            if self.objects[idx].id == id {
                assert(find_object_from(self@.objects, id, idx as int) == idx as int);
                return Some(&self.objects[idx]);
            }
            assert(self@.objects[idx as int].id != id);
            idx += 1;
        }
        None
    }

    /// Validates and applies a spawn request: the position must fall in
    /// the world's lateral band and strictly inside some city's span; the
    /// object is instantiated under the first lot whose polygon contains
    /// the point, else under the city, and the client is sent a
    /// confirmation. An out-of-bounds request is dropped whole.
    #[verifier::rlimit(50)]
    pub fn handle_spawn(&mut self, client: u64, request: SpawnRequest) -> (r: Option<Confirmation>)
        requires
            world_wf(old(self)@),
            old(self)@.next_id < u64::MAX,
        ensures
            final(self)@ == spec_handle_spawn(old(self)@, client, request@).0,
            r == spec_handle_spawn(old(self)@, client, request@).1,
            world_wf(final(self)@),
    {
        if request.position.y > HALF_CITY_SIZE || request.position.y < -HALF_CITY_SIZE {
            assert(!spawn_lateral_ok(request.position));
            return None;
        }
        let ci = match self.find_city(request.position.x) {
            Some(ci) => ci,
            None => {
                return None;
            },
        };
        let li = self.find_lot(request.position);
        let container = match li {
            Some(li) => self.lots[li].id,
            None => self.cities[ci].id,
        };
        assert(container == spawn_container(self@, request.position));
        let object = PlacedObject {
            id: self.next_id,
            template_path: request.template_path,
            translation: Vec3 { x: request.position.x, y: 0, z: request.position.y },
            rotation: request.rotation,
            container,
        };
        proof {
            assert(object@ == spawned_object(self@, request@));
        }
        self.objects.push(object);
        self.next_id = self.next_id + 1;
        proof {
            assert(self.objects@.map_values(|o: PlacedObject| o@) =~= old(self).objects@.map_values(
                |o: PlacedObject| o@,
            ).push(self.objects@.last()@));
        }
        Some(Confirmation { client })
    }

    /// Validates and applies a move request: the named object's pose is
    /// updated and the client confirmed; an identity that resolves to no
    /// object has the request dropped whole.
    #[verifier::rlimit(50)]
    pub fn handle_move(&mut self, client: u64, request: MoveRequest) -> (r: Option<Confirmation>)
        requires
            world_wf(old(self)@),
        ensures
            final(self)@ == spec_handle_move(old(self)@, client, request).0,
            r == spec_handle_move(old(self)@, client, request).1,
            world_wf(final(self)@),
    {
        let fi = match self.find_object(request.object) {
            Some(fi) => fi,
            None => {
                return None;
            },
        };
        let mut object = self.objects.remove(fi);
        object.translation = request.translation;
        object.rotation = request.rotation;
        self.objects.insert(fi, object);
        proof {
            let f = |o: PlacedObject| o@;
            let fi_ = fi as int;
            assert(self.objects@.map_values(f) =~= old(self).objects@.map_values(f).update(
                fi_,
                self.objects@[fi_]@,
            ));
            let w0 = old(self)@;
            assert forall|i: int| 0 <= i < self@.objects.len() implies (
            #[trigger] self@.objects[i]).id == w0.objects[i].id by {
                if i != fi_ {
                    assert(self@.objects[i] == w0.objects[i]);
                }
            }
            lemma_wf_after_pose_update(w0, self@, fi_);
        }
        Some(Confirmation { client })
    }

    /// Validates and applies a despawn request: the named object is
    /// removed and the client confirmed; an identity that resolves to no
    /// object has the request dropped whole.
    #[verifier::rlimit(50)]
    pub fn handle_despawn(&mut self, client: u64, request: DespawnRequest) -> (r: Option<
        Confirmation,
    >)
        requires
            world_wf(old(self)@),
        ensures
            final(self)@ == spec_handle_despawn(old(self)@, client, request).0,
            r == spec_handle_despawn(old(self)@, client, request).1,
            world_wf(final(self)@),
    {
        let fi = match self.find_object(request.object) {
            Some(fi) => fi,
            None => {
                return None;
            },
        };
        self.objects.remove(fi);
        proof {
            let f = |o: PlacedObject| o@;
            assert(self.objects@.map_values(f) =~= old(self).objects@.map_values(f).remove(
                fi as int,
            ));
            let w0 = old(self)@;
            lemma_wf_after_remove(w0, self@, fi as int);
        }
        Some(Confirmation { client })
    }

    /// One translated request, dispatched to its handler.
    pub fn handle_request(&mut self, client: u64, request: Request) -> (r: Option<Confirmation>)
        requires
            world_wf(old(self)@),
            old(self)@.next_id < u64::MAX,
        ensures
            final(self)@ == spec_handle_request(old(self)@, client, request@).0,
            r == spec_handle_request(old(self)@, client, request@).1,
            world_wf(final(self)@),
    {
        match request {
            Request::Spawn(s) => self.handle_spawn(client, s),
            Request::Move(m) => self.handle_move(client, m),
            Request::Despawn(d) => self.handle_despawn(client, d),
        }
    }

    /// Index of the first city strictly containing lateral coordinate `x`.
    fn find_city(&self, x: i64) -> (r: Option<usize>)
        ensures
            (r is None) <==> first_city_index(self@.cities, x as int) == -1,
            r matches Some(ci) ==> ci as int == first_city_index(self@.cities, x as int) && 0
                <= ci < self@.cities.len(),
    {
        let n = self.cities.len();
        let mut idx: usize = 0;
        while idx < n
            invariant
                n == self.cities@.len(),
                0 <= idx <= n,
                first_city_index(self.cities@, x as int) == first_city_from(
                    self.cities@,
                    x as int,
                    idx as int,
                ),
            decreases n - idx,
        {
            let c = self.cities[idx];
            let d = x as i128 - c.center_x as i128;
            if -(HALF_CITY_SIZE as i128) < d && d < HALF_CITY_SIZE as i128 {
                assert(city_contains(self.cities@[idx as int], x as int));
                return Some(idx);
            }
            assert(!city_contains(self.cities@[idx as int], x as int));
            idx += 1;
        }
        None
    }

    /// Index of the first lot whose polygon contains the point.
    fn find_lot(&self, p: Vec2) -> (r: Option<usize>)
        requires
            world_wf(self@),
        ensures
            (r is None) <==> first_lot_index(self@.lots, p@) == -1,
            r matches Some(li) ==> li as int == first_lot_index(self@.lots, p@) && 0 <= li
                < self@.lots.len(),
    {
        let n = self.lots.len();
        let mut idx: usize = 0;
        while idx < n
            invariant
                n == self.lots@.len(),
                world_wf(self@),
                0 <= idx <= n,
                first_lot_index(self@.lots, p@) == first_lot_from(self@.lots, p@, idx as int),
            decreases n - idx,
        {
            assert(self@.lots[idx as int] == self.lots@[idx as int]@);
            if polygon_contains_point(&self.lots[idx].vertices, p) {
                return Some(idx);
            }
            idx += 1;
        }
        None
    }

    /// Index of the object with the given shared identity.
    fn find_object(&self, id: u64) -> (r: Option<usize>)
        ensures
            (r is None) <==> find_object_index(self@.objects, id) == -1,
            r matches Some(fi) ==> fi as int == find_object_index(self@.objects, id) && 0 <= fi
                < self@.objects.len(),
    {
        let n = self.objects.len();
        let mut idx: usize = 0;
        while idx < n
            invariant
                n == self.objects@.len(),
                0 <= idx <= n,
                find_object_index(self@.objects, id) == find_object_from(
                    self@.objects,
                    id,
                    idx as int,
                ),
            decreases n - idx,
        {
            if self.objects[idx].id == id {
                assert(find_object_from(self@.objects, id, idx as int) == idx as int);
                return Some(idx);
            }
            assert(self@.objects[idx as int].id != id);
            idx += 1;
        }
        None
    }
}

} // verus!
