//! Cutting a small scene out of a big one.
//!
//! The full bake holds the whole map: every wall, every crate, every light
//! fitting. What gets published is a subset that contains the categories on
//! show and nothing else.
//!
//! The saving is not just the instances that go away. Because geometry is
//! shared, dropping a category usually drops its vertices entirely, and what
//! remains is repacked so no unreferenced vertex is carried along: each range of
//! indices is stored once, however many instances draw it, together with the
//! vertices that it touches and no others.
//!
//! No textures are involved at any stage: every surface draws in a flat
//! per-category colour.
use crate::category::{Classification, Mode};
use crate::scene::{Instance, Scene, Vertex};
use crate::single::{law_numbers_are_ordered_by_value, value, Single, INFINITY, NEG_INFINITY};
use std::collections::HashMap;
use vstd::prelude::*;
use vstd::utf8::encode_utf8;

verus! {

/// Bits of `0.5`, each channel of a colour that nothing else gives.
pub const HALF: u32 = 0x3F00_0000;

/// Bits of `1.0`, its alpha.
pub const OPAQUE: u32 = 0x3F80_0000;

/// One instance of the subset. What is not here is what the instance that it
/// was cut from has.
#[derive(Debug, Clone, Copy, PartialEq, Eq, Structural)]
pub struct Kept {
    /// Which instance of the full scene it was cut from.
    pub source: usize,
    /// Where its indices start in the packed index pool.
    pub first_index: u32,
    /// What is added to each packed index to find its vertex.
    pub base_vertex: u32,
    /// Which packed material it is drawn with.
    pub material: u32,
    /// Where its name starts in the packed strings.
    pub name_offset: u32,
    /// How many bytes its name takes.
    pub name_len: u32,
}

/// One material of the subset.
#[derive(Debug, Clone, Copy)]
pub struct PackedMaterial {
    /// Where its name starts in the packed strings.
    pub name_offset: u32,
    /// How many bytes its name takes.
    pub name_len: u32,
    /// Linear RGBA.
    pub colour: [Single; 4],
}

/// A scene cut down to what is on show.
pub struct Subset {
    pub instances: Vec<Kept>,
    pub materials: Vec<PackedMaterial>,
    pub strings: Vec<u8>,
    pub vertices: Vec<Vertex>,
    pub indices: Vec<u32>,
    /// Least corner of everything kept.
    pub scene_min: [Single; 3],
    /// Greatest corner of everything kept.
    pub scene_max: [Single; 3],
}

/// What was dropped and what was kept, for reporting.
#[derive(Debug, Clone, Copy, PartialEq, Eq, Structural)]
pub struct Summary {
    pub instances_in: usize,
    pub instances_out: usize,
    pub vertices_in: usize,
    pub vertices_out: usize,
    pub triangles_out: usize,
    pub bytes_in: usize,
    pub bytes_out: usize,
}

/// Nothing to export: every category is hidden, or draws nothing that can be
/// read.
#[derive(Debug, Clone, Copy, PartialEq, Eq, Structural)]
pub struct NothingToExport;

/// The least of some indices.
pub open spec fn least(indices: Seq<u32>) -> u32
    decreases indices.len(),
{
    if indices.len() == 0 {
        u32::MAX
    } else if least(indices.drop_last()) <= indices.last() {
        least(indices.drop_last())
    } else {
        indices.last()
    }
}

/// The greatest of some indices.
pub open spec fn greatest(indices: Seq<u32>) -> u32
    decreases indices.len(),
{
    if indices.len() == 0 {
        0
    } else if greatest(indices.drop_last()) >= indices.last() {
        greatest(indices.drop_last())
    } else {
        indices.last()
    }
}

/// What an instance draws: two instances with the same key share geometry.
pub open spec fn key(instance: Instance) -> (u32, u32, u32) {
    (instance.first_index, instance.index_count, instance.base_vertex)
}

/// The indices that an instance draws.
pub open spec fn drawn(scene: &Scene, instance: Instance) -> Seq<u32> {
    scene.indices@.subrange(
        instance.first_index as int,
        instance.first_index + instance.index_count,
    )
}

/// The numbers below `n` that occur among some indices, each once and in order.
pub open spec fn used(indices: Seq<u32>, n: int) -> Seq<u32>
    decreases n,
{
    if n <= 0 {
        Seq::empty()
    } else if indices.contains((n - 1) as u32) {
        used(indices, n - 1).push((n - 1) as u32)
    } else {
        used(indices, n - 1)
    }
}

/// The numbers that occur among some indices, each once and in order.
pub open spec fn touched(indices: Seq<u32>) -> Seq<u32> {
    used(indices, greatest(indices) + 1)
}

/// How many different indices are below this one.
pub open spec fn rank(indices: Seq<u32>, index: u32) -> nat {
    used(indices, index as int).len()
}

/// Each index replaced by its rank.
pub open spec fn ranked(indices: Seq<u32>) -> Seq<u32> {
    Seq::new(indices.len(), |i: int| rank(indices, indices[i]) as u32)
}

/// The vertices that an instance draws, each once, in the order of the pool.
pub open spec fn vertices_touched(scene: &Scene, instance: Instance) -> Seq<Vertex> {
    let touched = touched(drawn(scene, instance));
    Seq::new(touched.len(), |j: int| scene.vertices@[instance.base_vertex + touched[j]])
}

/// The indices that an instance draws, counted among the vertices that it
/// touches.
pub open spec fn rebased(scene: &Scene, instance: Instance) -> Seq<u32> {
    ranked(drawn(scene, instance))
}

/// An instance draws something, and all of it is in the pools.
pub open spec fn readable(scene: &Scene, instance: Instance) -> bool {
    &&& instance.index_count != 0
    &&& instance.first_index + instance.index_count <= scene.indices@.len()
    &&& instance.base_vertex + greatest(drawn(scene, instance)) < scene.vertices@.len()
}

/// An instance goes into the subset when it is on show and can be read.
pub open spec fn carried(scene: &Scene, classification: &Classification, id: int) -> bool {
    &&& 0 <= id < scene.instances@.len()
    &&& classification.mode_at(id) != Mode::Hidden
    &&& readable(scene, scene.instances@[id])
}

/// No instance before this one brings the same geometry.
pub open spec fn brings_geometry(scene: &Scene, classification: &Classification, id: int) -> bool {
    &&& carried(scene, classification, id)
    &&& forall|j: int|
        0 <= j < id && #[trigger] carried(scene, classification, j) ==> key(scene.instances@[j]) != key(
            scene.instances@[id],
        )
}

/// No instance before this one brings the same material.
pub open spec fn brings_material(scene: &Scene, classification: &Classification, id: int) -> bool {
    &&& carried(scene, classification, id)
    &&& forall|j: int|
        0 <= j < id && #[trigger] carried(scene, classification, j) ==> scene.instances@[j].material
            != scene.instances@[id].material
}

/// The instance that brought the geometry this one draws.
pub open spec fn geometry_from(scene: &Scene, classification: &Classification, id: int) -> int {
    choose|j: int|
        0 <= j <= id && #[trigger] brings_geometry(scene, classification, j) && key(scene.instances@[j])
            == key(scene.instances@[id])
}

/// The instance that brought the material this one is drawn with.
pub open spec fn material_from(scene: &Scene, classification: &Classification, id: int) -> int {
    choose|j: int|
        0 <= j <= id && #[trigger] brings_material(scene, classification, j) && scene.instances@[j].material
            == scene.instances@[id].material
}

/// The packed indices that the first `n` instances come to.
pub open spec fn packed_indices(scene: &Scene, classification: &Classification, n: int) -> Seq<u32>
    decreases n,
{
    if n <= 0 {
        Seq::empty()
    } else if brings_geometry(scene, classification, n - 1) {
        packed_indices(scene, classification, n - 1) + rebased(scene, scene.instances@[n - 1])
    } else {
        packed_indices(scene, classification, n - 1)
    }
}

/// The packed vertices that the first `n` instances come to.
pub open spec fn packed_vertices(
    scene: &Scene,
    classification: &Classification,
    n: int,
) -> Seq<Vertex>
    decreases n,
{
    if n <= 0 {
        Seq::empty()
    } else if brings_geometry(scene, classification, n - 1) {
        packed_vertices(scene, classification, n - 1) + vertices_touched(
            scene,
            scene.instances@[n - 1],
        )
    } else {
        packed_vertices(scene, classification, n - 1)
    }
}

/// The bytes of the name of an instance's material.
pub open spec fn material_bytes(scene: &Scene, id: int) -> Seq<u8> {
    encode_utf8(scene.material_of(id))
}

/// The bytes of an instance's name.
pub open spec fn name_bytes(scene: &Scene, id: int) -> Seq<u8> {
    encode_utf8(scene.name_of(id))
}

/// The packed strings once the material of instance `id` is in, and its own
/// name is not.
pub open spec fn strings_before_name(
    scene: &Scene,
    classification: &Classification,
    id: int,
) -> Seq<u8>
    decreases id, 1int,
    when id >= 0
{
    if brings_material(scene, classification, id) {
        packed_strings(scene, classification, id) + material_bytes(scene, id)
    } else {
        packed_strings(scene, classification, id)
    }
}

/// The packed strings that the first `n` instances come to: the name of each
/// material when an instance first brings it, then the instance's own name.
pub open spec fn packed_strings(scene: &Scene, classification: &Classification, n: int) -> Seq<u8>
    decreases n, 0int,
{
    if n <= 0 {
        Seq::empty()
    } else if carried(scene, classification, n - 1) {
        strings_before_name(scene, classification, n - 1) + name_bytes(scene, n - 1)
    } else {
        packed_strings(scene, classification, n - 1)
    }
}

/// The colour of a material; a grey one where there is no such material.
pub open spec fn colour_of(scene: &Scene, material: u32) -> [Single; 4] {
    if (material as int) < scene.materials@.len() {
        scene.materials@[material as int].colour
    } else {
        [
            Single { bits: HALF },
            Single { bits: HALF },
            Single { bits: HALF },
            Single { bits: OPAQUE },
        ]
    }
}

/// The material that instance `id` brings.
pub open spec fn material_brought(
    scene: &Scene,
    classification: &Classification,
    id: int,
) -> PackedMaterial {
    PackedMaterial {
        name_offset: packed_strings(scene, classification, id).len() as u32,
        name_len: material_bytes(scene, id).len() as u32,
        colour: colour_of(scene, scene.instances@[id].material),
    }
}

/// The packed materials that the first `n` instances come to.
pub open spec fn packed_materials(
    scene: &Scene,
    classification: &Classification,
    n: int,
) -> Seq<PackedMaterial>
    decreases n,
{
    if n <= 0 {
        Seq::empty()
    } else if brings_material(scene, classification, n - 1) {
        packed_materials(scene, classification, n - 1).push(
            material_brought(scene, classification, n - 1),
        )
    } else {
        packed_materials(scene, classification, n - 1)
    }
}

/// What is kept of instance `id`.
pub open spec fn kept(scene: &Scene, classification: &Classification, id: int) -> Kept {
    let geometry = geometry_from(scene, classification, id);
    let material = material_from(scene, classification, id);
    Kept {
        source: id as usize,
        first_index: packed_indices(scene, classification, geometry).len() as u32,
        base_vertex: packed_vertices(scene, classification, geometry).len() as u32,
        material: packed_materials(scene, classification, material).len() as u32,
        name_offset: strings_before_name(scene, classification, id).len() as u32,
        name_len: name_bytes(scene, id).len() as u32,
    }
}

/// What is kept of the first `n` instances.
pub open spec fn packed_instances(
    scene: &Scene,
    classification: &Classification,
    n: int,
) -> Seq<Kept>
    decreases n,
{
    if n <= 0 {
        Seq::empty()
    } else if carried(scene, classification, n - 1) {
        packed_instances(scene, classification, n - 1).push(kept(scene, classification, n - 1))
    } else {
        packed_instances(scene, classification, n - 1)
    }
}

/// The least coordinate on an axis of what is kept of the first `n` instances.
pub open spec fn packed_min(
    scene: &Scene,
    classification: &Classification,
    axis: int,
    n: int,
) -> Single
    decreases n,
{
    if n <= 0 {
        Single { bits: INFINITY }
    } else if carried(scene, classification, n - 1) {
        packed_min(scene, classification, axis, n - 1).lesser(scene.instances@[n - 1].aabb_min[axis])
    } else {
        packed_min(scene, classification, axis, n - 1)
    }
}

/// The greatest coordinate on an axis of what is kept of the first `n`
/// instances.
pub open spec fn packed_max(
    scene: &Scene,
    classification: &Classification,
    axis: int,
    n: int,
) -> Single
    decreases n,
{
    if n <= 0 {
        Single { bits: NEG_INFINITY }
    } else if carried(scene, classification, n - 1) {
        packed_max(scene, classification, axis, n - 1).greater(scene.instances@[n - 1].aabb_max[axis])
    } else {
        packed_max(scene, classification, axis, n - 1)
    }
}

impl Subset {
    /// Holds what the first `n` instances of a scene come to.
    pub open spec fn holds(&self, scene: &Scene, classification: &Classification, n: int) -> bool {
        &&& self.instances@ == packed_instances(scene, classification, n)
        &&& self.materials@ == packed_materials(scene, classification, n)
        &&& self.strings@ == packed_strings(scene, classification, n)
        &&& self.vertices@ == packed_vertices(scene, classification, n)
        &&& self.indices@ == packed_indices(scene, classification, n)
        &&& forall|axis: int|
            0 <= axis < 3 ==> (#[trigger] self.scene_min[axis]) == packed_min(
                scene,
                classification,
                axis,
                n,
            )
        &&& forall|axis: int|
            0 <= axis < 3 ==> (#[trigger] self.scene_max[axis]) == packed_max(
                scene,
                classification,
                axis,
                n,
            )
    }

    /// Holds what a whole scene comes to.
    pub open spec fn cut_from(&self, scene: &Scene, classification: &Classification) -> bool {
        self.holds(scene, classification, scene.instances@.len() as int)
    }
}

/// The first instance that brings a piece of geometry is there, and there is
/// only one.
proof fn lemma_geometry_from(scene: &Scene, classification: &Classification, id: int, up_to: int)
    requires
        carried(scene, classification, id),
        0 <= up_to <= id,
    ensures
        (forall|j: int|
            0 <= j < up_to && #[trigger] carried(scene, classification, j) ==> key(scene.instances@[j])
                != key(scene.instances@[id])) || exists|j: int|
            0 <= j < up_to && #[trigger] brings_geometry(scene, classification, j) && key(
                scene.instances@[j],
            ) == key(scene.instances@[id]),
    decreases up_to,
{
    if up_to > 0 {
        lemma_geometry_from(scene, classification, id, up_to - 1);
        let j = up_to - 1;
        if carried(scene, classification, j) && key(scene.instances@[j]) == key(scene.instances@[id]) {
            if forall|i: int|
                0 <= i < j && #[trigger] carried(scene, classification, i) ==> key(scene.instances@[i])
                    != key(scene.instances@[id]) {
                assert(brings_geometry(scene, classification, j));
            }
        }
    }
}

/// Where geometry comes from: an instance at or before the one that draws it,
/// the same one for every instance that draws it.
pub(crate) proof fn lemma_geometry_source(scene: &Scene, classification: &Classification, id: int)
    requires
        carried(scene, classification, id),
    ensures
        0 <= geometry_from(scene, classification, id) <= id,
        brings_geometry(scene, classification, geometry_from(scene, classification, id)),
        key(scene.instances@[geometry_from(scene, classification, id)]) == key(scene.instances@[id]),
        brings_geometry(scene, classification, id) ==> geometry_from(scene, classification, id) == id,
        forall|j: int|
            #[trigger] carried(scene, classification, j) && key(scene.instances@[j]) == key(
                scene.instances@[id],
            ) ==> geometry_from(scene, classification, j) == geometry_from(scene, classification, id),
{
    lemma_geometry_from(scene, classification, id, id);
    let from = geometry_from(scene, classification, id);
    if brings_geometry(scene, classification, id) {
        assert(0 <= id <= id && brings_geometry(scene, classification, id));
    }
    assert(0 <= from <= id && brings_geometry(scene, classification, from));
    assert forall|j: int|
        #[trigger] carried(scene, classification, j) && key(scene.instances@[j]) == key(
            scene.instances@[id],
        ) implies geometry_from(scene, classification, j) == from by {
        lemma_geometry_from(scene, classification, j, j);
        let other = geometry_from(scene, classification, j);
        if brings_geometry(scene, classification, j) {
            assert(0 <= j <= j && brings_geometry(scene, classification, j));
        }
        assert(0 <= other <= j && brings_geometry(scene, classification, other));
        assert(carried(scene, classification, other) && carried(scene, classification, from));
    }
}

/// As above, for materials.
proof fn lemma_material_from(scene: &Scene, classification: &Classification, id: int, up_to: int)
    requires
        carried(scene, classification, id),
        0 <= up_to <= id,
    ensures
        (forall|j: int|
            0 <= j < up_to && #[trigger] carried(scene, classification, j) ==> scene.instances@[j].material
                != scene.instances@[id].material) || exists|j: int|
            0 <= j < up_to && #[trigger] brings_material(scene, classification, j)
                && scene.instances@[j].material == scene.instances@[id].material,
    decreases up_to,
{
    if up_to > 0 {
        lemma_material_from(scene, classification, id, up_to - 1);
        let j = up_to - 1;
        if carried(scene, classification, j) && scene.instances@[j].material
            == scene.instances@[id].material {
            if forall|i: int|
                0 <= i < j && #[trigger] carried(scene, classification, i) ==> scene.instances@[i].material
                    != scene.instances@[id].material {
                assert(brings_material(scene, classification, j));
            }
        }
    }
}

/// Where a material comes from: an instance at or before the one drawn with it,
/// the same one for every instance drawn with it.
pub(crate) proof fn lemma_material_source(scene: &Scene, classification: &Classification, id: int)
    requires
        carried(scene, classification, id),
    ensures
        0 <= material_from(scene, classification, id) <= id,
        brings_material(scene, classification, material_from(scene, classification, id)),
        scene.instances@[material_from(scene, classification, id)].material
            == scene.instances@[id].material,
        brings_material(scene, classification, id) ==> material_from(scene, classification, id) == id,
        forall|j: int|
            #[trigger] carried(scene, classification, j) && scene.instances@[j].material
                == scene.instances@[id].material ==> material_from(scene, classification, j)
                == material_from(scene, classification, id),
{
    lemma_material_from(scene, classification, id, id);
    let from = material_from(scene, classification, id);
    if brings_material(scene, classification, id) {
        assert(0 <= id <= id && brings_material(scene, classification, id));
    }
    assert(0 <= from <= id && brings_material(scene, classification, from));
    assert forall|j: int|
        #[trigger] carried(scene, classification, j) && scene.instances@[j].material
            == scene.instances@[id].material implies material_from(scene, classification, j) == from by {
        lemma_material_from(scene, classification, j, j);
        let other = material_from(scene, classification, j);
        if brings_material(scene, classification, j) {
            assert(0 <= j <= j && brings_material(scene, classification, j));
        }
        assert(0 <= other <= j && brings_material(scene, classification, other));
        assert(carried(scene, classification, other) && carried(scene, classification, from));
    }
}

/// A key as one number.
spec fn number(key: (u32, u32, u32)) -> int {
    key.0 * 0x1_0000_0000_0000_0000 + key.1 * 0x1_0000_0000 + key.2
}

/// Different keys are different numbers, and each fits.
proof fn lemma_number_is_injective(a: (u32, u32, u32), b: (u32, u32, u32))
    ensures
        0 <= number(a) <= u128::MAX,
        number(a) == number(b) ==> a == b,
{
}

fn number_of(instance: &Instance) -> (r: u128)
    ensures
        r == number(key(*instance)),
{
    (instance.first_index as u128) * 0x1_0000_0000_0000_0000 + (instance.index_count as u128)
        * 0x1_0000_0000 + (instance.base_vertex as u128)
}

/// Where the geometry that an instance draws starts in the packed pools.
spec fn place_of(scene: &Scene, classification: &Classification, id: int) -> (u32, u32) {
    let from = geometry_from(scene, classification, id);
    (
        packed_indices(scene, classification, from).len() as u32,
        packed_vertices(scene, classification, from).len() as u32,
    )
}

/// Which packed material an instance is drawn with.
spec fn slot_of(scene: &Scene, classification: &Classification, id: int) -> u32 {
    packed_materials(scene, classification, material_from(scene, classification, id)).len() as u32
}

/// The map knows the geometry of the first `n` instances, and no other.
#[verifier::opaque]
spec fn maps_geometry(
    map: Map<u128, (u32, u32)>,
    scene: &Scene,
    classification: &Classification,
    n: int,
) -> bool {
    &&& forall|j: int|
        0 <= j < n && #[trigger] carried(scene, classification, j) ==> {
            &&& map.contains_key(number(key(scene.instances@[j])) as u128)
            &&& map[number(key(scene.instances@[j])) as u128] == place_of(scene, classification, j)
        }
    &&& forall|k: u128| #[trigger]
        map.contains_key(k) ==> exists|j: int|
            0 <= j < n && #[trigger] carried(scene, classification, j) && number(
                key(scene.instances@[j]),
            ) == k
}

/// The map knows the materials of the first `n` instances, and no other.
#[verifier::opaque]
spec fn maps_materials(
    map: Map<u32, u32>,
    scene: &Scene,
    classification: &Classification,
    n: int,
) -> bool {
    &&& forall|j: int|
        0 <= j < n && #[trigger] carried(scene, classification, j) ==> {
            &&& map.contains_key(scene.instances@[j].material)
            &&& map[scene.instances@[j].material] == slot_of(scene, classification, j)
        }
    &&& forall|k: u32| #[trigger]
        map.contains_key(k) ==> exists|j: int|
            0 <= j < n && #[trigger] carried(scene, classification, j) && scene.instances@[j].material
                == k
}

/// The least and the greatest index of a range.
fn extent(indices: &Vec<u32>, first: usize, count: usize) -> (r: (u32, u32))
    requires
        first + count <= indices@.len(),
    ensures
        r.0 == least(indices@.subrange(first as int, first + count)),
        r.1 == greatest(indices@.subrange(first as int, first + count)),
{
    let mut low: u32 = u32::MAX;
    let mut high: u32 = 0;
    let mut i: usize = 0;
    let total: usize = indices.len();
    assert(indices@.subrange(first as int, first as int) =~= Seq::empty());
    while i < count
        invariant
            i <= count,
            total == indices@.len(),
            first + count <= total,
            low == least(indices@.subrange(first as int, first + i)),
            high == greatest(indices@.subrange(first as int, first + i)),
        decreases count - i,
    {
        let index: u32 = indices[first + i];
        proof {
            let longer = indices@.subrange(first as int, first + i + 1);
            assert(longer.drop_last() =~= indices@.subrange(first as int, first + i));
            assert(longer.last() == index);
        }
        if index < low {
            low = index;
        }
        if index > high {
            high = index;
        }
        i += 1;
    }
    (low, high)
}

/// Every index of a range lies between the least and the greatest, and if there
/// is one, both are reached.
pub(crate) proof fn lemma_extent(indices: Seq<u32>)
    ensures
        forall|i: int|
            0 <= i < indices.len() ==> least(indices) <= (#[trigger] indices[i]) <= greatest(indices),
        indices.len() > 0 ==> indices.contains(least(indices)) && indices.contains(greatest(indices)),
    decreases indices.len(),
{
    if indices.len() > 0 {
        let shorter = indices.drop_last();
        lemma_extent(shorter);
        assert forall|i: int| 0 <= i < indices.len() implies least(indices) <= (#[trigger] indices[i])
            <= greatest(indices) by {
            if i < shorter.len() {
                assert(shorter[i] == indices[i]);
            }
        }
        assert(indices[indices.len() - 1] == indices.last());
        if shorter.len() > 0 {
            let a = choose|a: int| 0 <= a < shorter.len() && shorter[a] == least(shorter);
            let b = choose|b: int| 0 <= b < shorter.len() && shorter[b] == greatest(shorter);
            assert(indices[a] == least(shorter));
            assert(indices[b] == greatest(shorter));
        }
    }
}

/// What is used below a number occurs, is below it, and stands at its rank.
pub(crate) proof fn lemma_used(indices: Seq<u32>, n: int)
    requires
        0 <= n <= 0x1_0000_0000,
    ensures
        used(indices, n).len() <= n,
        forall|j: int|
            0 <= j < used(indices, n).len() ==> {
                &&& (#[trigger] used(indices, n)[j]) < n
                &&& indices.contains(used(indices, n)[j])
                &&& rank(indices, used(indices, n)[j]) == j
            },
        forall|v: u32|
            v < n && #[trigger] indices.contains(v) ==> {
                &&& rank(indices, v) < used(indices, n).len()
                &&& used(indices, n)[rank(indices, v) as int] == v
            },
    decreases n,
{
    if n > 0 {
        lemma_used(indices, n - 1);
    }
}

/// Nothing is used below the least index.
proof fn lemma_nothing_below(indices: Seq<u32>, n: int)
    requires
        0 <= n <= least(indices),
    ensures
        used(indices, n) == Seq::<u32>::empty(),
    decreases n,
{
    if n > 0 {
        lemma_nothing_below(indices, n - 1);
        lemma_extent(indices);
    }
}

/// For each number from `low` on, whether it occurs in a range of indices.
fn mark(indices: &Vec<u32>, first: usize, count: usize, low: u32, size: usize) -> (r: Vec<bool>)
    requires
        first + count <= indices@.len(),
        low + size <= 0x1_0000_0000,
        forall|i: int| first <= i < first + count ==> low <= (#[trigger] indices@[i]) < low + size,
    ensures
        r@.len() == size,
        forall|v: int|
            0 <= v < size ==> (#[trigger] r@[v]) == indices@.subrange(
                first as int,
                first + count,
            ).contains((low + v) as u32),
{
    let mut marks: Vec<bool> = Vec::new();
    while marks.len() < size
        invariant
            marks@.len() <= size,
            forall|v: int| 0 <= v < marks@.len() ==> !#[trigger] marks@[v],
        decreases size - marks@.len(),
    {
        marks.push(false);
    }
    let ghost range = indices@.subrange(first as int, first + count);
    let total: usize = indices.len();
    let mut i: usize = 0;
    while i < count
        invariant
            i <= count,
            total == indices@.len(),
            first + count <= total,
            low + size <= 0x1_0000_0000,
            range == indices@.subrange(first as int, first + count),
            forall|i: int| first <= i < first + count ==> low <= (#[trigger] indices@[i]) < low + size,
            marks@.len() == size,
            forall|v: int|
                0 <= v < size && #[trigger] marks@[v] ==> range.contains((low + v) as u32),
            forall|j: int| 0 <= j < i ==> marks@[(#[trigger] range[j]) - low],
        decreases count - i,
    {
        let index: u32 = indices[first + i];
        assert(range[i as int] == index);
        marks.set((index - low) as usize, true);
        i += 1;
    }
    assert forall|v: int| 0 <= v < size implies (#[trigger] marks@[v]) == range.contains(
        (low + v) as u32,
    ) by {
        if range.contains((low + v) as u32) {
            let j = choose|j: int| 0 <= j < range.len() && range[j] == (low + v) as u32;
            assert(marks@[range[j] - low]);
        }
    }
    marks
}

/// The vertices of some numbers, counted from `base`.
spec fn picked(vertices: Seq<Vertex>, base: int, numbers: Seq<u32>) -> Seq<Vertex> {
    Seq::new(numbers.len(), |j: int| vertices[base + numbers[j]])
}

/// Add the marked vertices to the end of a pool; the rank of each marked number.
fn copy_vertices(
    out: &mut Vec<Vertex>,
    vertices: &Vec<Vertex>,
    base: usize,
    low: u32,
    marks: &Vec<bool>,
    Ghost(indices): Ghost<Seq<u32>>,
) -> (r: Vec<u32>)
    requires
        low == least(indices),
        low + marks@.len() <= 0x1_0000_0000,
        base + low + marks@.len() <= vertices@.len(),
        forall|v: int|
            0 <= v < marks@.len() ==> (#[trigger] marks@[v]) == indices.contains((low + v) as u32),
    ensures
        final(out)@ == old(out)@ + picked(
            vertices@,
            base as int,
            used(indices, low + marks@.len()),
        ),
        r@.len() == marks@.len(),
        forall|v: int|
            0 <= v < marks@.len() ==> (#[trigger] r@[v]) == rank(indices, (low + v) as u32),
{
    let mut ranks: Vec<u32> = Vec::new();
    let mut next: u32 = 0;
    let mut v: usize = 0;
    let total: usize = vertices.len();
    proof {
        lemma_nothing_below(indices, low as int);
    }
    assert(out@ =~= old(out)@ + picked(vertices@, base as int, used(indices, low as int)));
    while v < marks.len()
        invariant
            v <= marks@.len(),
            total == vertices@.len(),
            low + marks@.len() <= 0x1_0000_0000,
            base + low + marks@.len() <= total,
            forall|v: int|
                0 <= v < marks@.len() ==> (#[trigger] marks@[v]) == indices.contains((low + v) as u32),
            out@ == old(out)@ + picked(vertices@, base as int, used(indices, low + v)),
            low + v < 0x1_0000_0000 ==> next == used(indices, low + v).len(),
            ranks@.len() == v,
            forall|u: int| 0 <= u < v ==> (#[trigger] ranks@[u]) == rank(indices, (low + u) as u32),
        decreases marks@.len() - v,
    {
        proof {
            lemma_used(indices, low + v);
            lemma_used(indices, low + v + 1);
        }
        ranks.push(next);
        if marks[v] {
            assert(indices.contains((low + v) as u32));
            out.push(vertices[base + low as usize + v]);
            next = next.wrapping_add(1);
        }
        v += 1;
        assert(out@ =~= old(out)@ + picked(vertices@, base as int, used(indices, low + v)));
    }
    ranks
}

/// Add the ranks of a range of indices to the end of a pool.
fn copy_indices(
    out: &mut Vec<u32>,
    indices: &Vec<u32>,
    first: usize,
    count: usize,
    low: u32,
    ranks: &Vec<u32>,
)
    requires
        first + count <= indices@.len(),
        low + ranks@.len() <= 0x1_0000_0000,
        forall|i: int|
            first <= i < first + count ==> low <= (#[trigger] indices@[i]) < low + ranks@.len(),
        forall|v: int|
            0 <= v < ranks@.len() ==> (#[trigger] ranks@[v]) == rank(
                indices@.subrange(first as int, first + count),
                (low + v) as u32,
            ),
    ensures
        final(out)@ == old(out)@ + ranked(indices@.subrange(first as int, first + count)),
{
    let ghost range = indices@.subrange(first as int, first + count);
    let total: usize = indices.len();
    let mut i: usize = 0;
    assert(out@ =~= old(out)@ + ranked(range).take(0));
    while i < count
        invariant
            i <= count,
            total == indices@.len(),
            first + count <= total,
            range == indices@.subrange(first as int, first + count),
            forall|i: int|
                first <= i < first + count ==> low <= (#[trigger] indices@[i]) < low + ranks@.len(),
            forall|v: int|
                0 <= v < ranks@.len() ==> (#[trigger] ranks@[v]) == rank(range, (low + v) as u32),
            out@ == old(out)@ + ranked(range).take(i as int),
        decreases count - i,
    {
        let index: u32 = indices[first + i];
        assert(range[i as int] == index);
        let at: usize = (index - low) as usize;
        assert(ranks@[at as int] == rank(range, (low + at) as u32));
        out.push(ranks[at]);
        i += 1;
        assert(out@ =~= old(out)@ + ranked(range).take(i as int));
    }
    assert(ranked(range).take(count as int) =~= ranked(range));
}

/// Add the bytes of a text to the packed strings; where it starts and how many
/// bytes it takes.
fn intern(strings: &mut Vec<u8>, text: &str) -> (r: (u32, u32))
    ensures
        final(strings)@ == old(strings)@ + encode_utf8(text@),
        r.0 == old(strings)@.len() as u32,
        r.1 == encode_utf8(text@).len() as u32,
{
    let offset: u32 = strings.len() as u32;
    let bytes: &[u8] = text.as_bytes();
    strings.extend_from_slice(bytes);
    assert(strings@ =~= old(strings)@ + encode_utf8(text@));
    (offset, bytes.len() as u32)
}

/// An instance whose geometry is known draws what an earlier one brought.
proof fn lemma_geometry_known(
    map: Map<u128, (u32, u32)>,
    scene: &Scene,
    classification: &Classification,
    id: int,
)
    requires
        0 <= id < scene.instances@.len(),
        classification.mode_at(id) != Mode::Hidden,
        maps_geometry(map, scene, classification, id),
        map.contains_key(number(key(scene.instances@[id])) as u128),
    ensures
        carried(scene, classification, id),
        !brings_geometry(scene, classification, id),
        map[number(key(scene.instances@[id])) as u128] == place_of(scene, classification, id),
        maps_geometry(map, scene, classification, id + 1),
{
    reveal(maps_geometry);
    let at = number(key(scene.instances@[id])) as u128;
    assert(map.contains_key(at));
    let j = choose|j: int|
        0 <= j < id && #[trigger] carried(scene, classification, j) && number(key(scene.instances@[j]))
            == at;
    assert(key(scene.instances@[j]) == key(scene.instances@[id])) by {
        lemma_number_is_injective(key(scene.instances@[j]), key(scene.instances@[id]));
    }
    assert(carried(scene, classification, id));
    assert(place_of(scene, classification, j) == place_of(scene, classification, id)) by {
        lemma_geometry_source(scene, classification, id);
    }
    assert forall|k: u128| #[trigger] map.contains_key(k) implies exists|j: int|
        0 <= j < id + 1 && #[trigger] carried(scene, classification, j) && number(
            key(scene.instances@[j]),
        ) == k by {
        let i = choose|i: int|
            0 <= i < id && #[trigger] carried(scene, classification, i) && number(
                key(scene.instances@[i]),
            ) == k;
        assert(0 <= i < id + 1 && carried(scene, classification, i));
    }
}

/// An instance that is not carried leaves the known geometry as it is.
proof fn lemma_geometry_skipped(
    map: Map<u128, (u32, u32)>,
    scene: &Scene,
    classification: &Classification,
    id: int,
)
    requires
        0 <= id,
        !carried(scene, classification, id),
        maps_geometry(map, scene, classification, id),
    ensures
        maps_geometry(map, scene, classification, id + 1),
{
    reveal(maps_geometry);
    assert forall|k: u128| #[trigger] map.contains_key(k) implies exists|j: int|
        0 <= j < id + 1 && #[trigger] carried(scene, classification, j) && number(
            key(scene.instances@[j]),
        ) == k by {
        let i = choose|i: int|
            0 <= i < id && #[trigger] carried(scene, classification, i) && number(
                key(scene.instances@[i]),
            ) == k;
        assert(0 <= i < id + 1 && carried(scene, classification, i));
    }
}

/// An instance whose geometry is not known brings it.
proof fn lemma_geometry_brought(
    map: Map<u128, (u32, u32)>,
    scene: &Scene,
    classification: &Classification,
    id: int,
)
    requires
        carried(scene, classification, id),
        maps_geometry(map, scene, classification, id),
        !map.contains_key(number(key(scene.instances@[id])) as u128),
    ensures
        brings_geometry(scene, classification, id),
        place_of(scene, classification, id) == (
            packed_indices(scene, classification, id).len() as u32,
            packed_vertices(scene, classification, id).len() as u32,
        ),
        maps_geometry(
            map.insert(
                number(key(scene.instances@[id])) as u128,
                place_of(scene, classification, id),
            ),
            scene,
            classification,
            id + 1,
        ),
{
    reveal(maps_geometry);
    let at = number(key(scene.instances@[id])) as u128;
    assert forall|j: int| 0 <= j < id && #[trigger] carried(scene, classification, j) implies key(
        scene.instances@[j],
    ) != key(scene.instances@[id]) by {
        assert(map.contains_key(number(key(scene.instances@[j])) as u128));
    }
    assert(brings_geometry(scene, classification, id));
    lemma_geometry_source(scene, classification, id);
    let longer = map.insert(at, place_of(scene, classification, id));
    assert forall|j: int| 0 <= j < id + 1 && #[trigger] carried(scene, classification, j) implies {
        &&& longer.contains_key(number(key(scene.instances@[j])) as u128)
        &&& longer[number(key(scene.instances@[j])) as u128] == place_of(scene, classification, j)
    } by {
        if j < id {
            assert(map.contains_key(number(key(scene.instances@[j])) as u128));
        }
    }
    assert forall|k: u128| #[trigger] longer.contains_key(k) implies exists|j: int|
        0 <= j < id + 1 && #[trigger] carried(scene, classification, j) && number(
            key(scene.instances@[j]),
        ) == k by {
        if k == at {
            assert(carried(scene, classification, id) && number(key(scene.instances@[id])) == k);
        } else {
            assert(map.contains_key(k));
            let i = choose|i: int|
                0 <= i < id && #[trigger] carried(scene, classification, i) && number(
                    key(scene.instances@[i]),
                ) == k;
            assert(0 <= i < id + 1 && carried(scene, classification, i));
        }
    }
}

/// Find the geometry of an instance that is on show, packing it if it is not
/// packed yet; none when it cannot be read.
fn take_geometry(
    scene: &Scene,
    classification: &Classification,
    id: usize,
    known: &mut HashMap<u128, (u32, u32)>,
    subset: &mut Subset,
) -> (r: Option<(u32, u32)>)
    requires
        id < scene.instances@.len(),
        classification.mode_at(id as int) != Mode::Hidden,
        maps_geometry(old(known)@, scene, classification, id as int),
        old(subset).indices@ == packed_indices(scene, classification, id as int),
        old(subset).vertices@ == packed_vertices(scene, classification, id as int),
    ensures
        r is Some <==> carried(scene, classification, id as int),
        r is Some ==> r->0 == place_of(scene, classification, id as int),
        maps_geometry(final(known)@, scene, classification, id + 1),
        final(subset).indices@ == packed_indices(scene, classification, id + 1),
        final(subset).vertices@ == packed_vertices(scene, classification, id + 1),
        final(subset).instances == old(subset).instances,
        final(subset).materials == old(subset).materials,
        final(subset).strings == old(subset).strings,
        final(subset).scene_min == old(subset).scene_min,
        final(subset).scene_max == old(subset).scene_max,
{
    broadcast use vstd::std_specs::hash::group_hash_axioms;

    let instance: &Instance = &scene.instances[id];
    let packed: u128 = number_of(instance);
    if let Some(found) = known.get(&packed) {
        proof {
            lemma_geometry_known(known@, scene, classification, id as int);
        }
        return Some(*found);
    }
    let total: usize = scene.indices.len();
    let end: u64 = instance.first_index as u64 + instance.index_count as u64;
    if end > total as u64 || instance.index_count == 0 {
        proof {
            lemma_geometry_skipped(known@, scene, classification, id as int);
        }
        return None;
    }
    let first: usize = instance.first_index as usize;
    let count: usize = instance.index_count as usize;
    let (low, high): (u32, u32) = extent(&scene.indices, first, count);
    let last: u64 = instance.base_vertex as u64 + high as u64;
    if last >= scene.vertices.len() as u64 {
        proof {
            lemma_geometry_skipped(known@, scene, classification, id as int);
        }
        return None;
    }
    proof {
        let indices = drawn(scene, *instance);
        lemma_extent(indices);
        assert(low <= indices[0] <= high);
        assert forall|i: int| first <= i < first + count implies low <= (#[trigger] scene.indices@[i])
            <= high by {
            assert(indices[i - first] == scene.indices@[i]);
        }
        lemma_geometry_brought(known@, scene, classification, id as int);
    }
    let place: (u32, u32) = (subset.indices.len() as u32, subset.vertices.len() as u32);
    let size: usize = (high - low) as usize + 1;
    let marks: Vec<bool> = mark(&scene.indices, first, count, low, size);
    let ranks: Vec<u32> = copy_vertices(
        &mut subset.vertices,
        &scene.vertices,
        instance.base_vertex as usize,
        low,
        &marks,
        Ghost(drawn(scene, *instance)),
    );
    copy_indices(&mut subset.indices, &scene.indices, first, count, low, &ranks);
    known.insert(packed, place);
    assert(picked(
        scene.vertices@,
        instance.base_vertex as int,
        touched(drawn(scene, *instance)),
    ) =~= vertices_touched(scene, *instance));
    Some(place)
}

/// An instance whose material is known is drawn with what an earlier one
/// brought.
proof fn lemma_material_known(
    map: Map<u32, u32>,
    scene: &Scene,
    classification: &Classification,
    id: int,
)
    requires
        carried(scene, classification, id),
        maps_materials(map, scene, classification, id),
        map.contains_key(scene.instances@[id].material),
    ensures
        !brings_material(scene, classification, id),
        map[scene.instances@[id].material] == slot_of(scene, classification, id),
        maps_materials(map, scene, classification, id + 1),
{
    reveal(maps_materials);
    let j = choose|j: int|
        0 <= j < id && #[trigger] carried(scene, classification, j) && scene.instances@[j].material
            == scene.instances@[id].material;
    assert(carried(scene, classification, j));
    lemma_material_source(scene, classification, id);
    assert(material_from(scene, classification, j) == material_from(scene, classification, id));
    lemma_materials_stay_known(map, scene, classification, id);
}

/// What the map knows of the first instances it knows of one more.
proof fn lemma_materials_stay_known(
    map: Map<u32, u32>,
    scene: &Scene,
    classification: &Classification,
    id: int,
)
    requires
        0 <= id,
        maps_materials(map, scene, classification, id),
    ensures
        forall|k: u32| #[trigger]
            map.contains_key(k) ==> exists|j: int|
                0 <= j < id + 1 && #[trigger] carried(scene, classification, j)
                    && scene.instances@[j].material == k,
        !carried(scene, classification, id) ==> maps_materials(map, scene, classification, id + 1),
{
    reveal(maps_materials);
    assert forall|k: u32| #[trigger] map.contains_key(k) implies exists|j: int|
        0 <= j < id + 1 && #[trigger] carried(scene, classification, j) && scene.instances@[j].material
            == k by {
        let i = choose|i: int|
            0 <= i < id && #[trigger] carried(scene, classification, i) && scene.instances@[i].material
                == k;
        assert(0 <= i < id + 1 && carried(scene, classification, i));
    }
}

/// An instance whose material is not known brings it.
proof fn lemma_material_brought(
    map: Map<u32, u32>,
    scene: &Scene,
    classification: &Classification,
    id: int,
)
    requires
        carried(scene, classification, id),
        maps_materials(map, scene, classification, id),
        !map.contains_key(scene.instances@[id].material),
    ensures
        brings_material(scene, classification, id),
        slot_of(scene, classification, id) == packed_materials(scene, classification, id).len() as u32,
        maps_materials(
            map.insert(scene.instances@[id].material, slot_of(scene, classification, id)),
            scene,
            classification,
            id + 1,
        ),
{
    reveal(maps_materials);
    let at = scene.instances@[id].material;
    assert forall|j: int| 0 <= j < id && #[trigger] carried(scene, classification, j) implies scene.instances@[j].material
        != at by {
        assert(map.contains_key(scene.instances@[j].material));
    }
    assert(brings_material(scene, classification, id));
    lemma_material_source(scene, classification, id);
    lemma_materials_stay_known(map, scene, classification, id);
    let longer = map.insert(at, slot_of(scene, classification, id));
    assert forall|j: int| 0 <= j < id + 1 && #[trigger] carried(scene, classification, j) implies {
        &&& longer.contains_key(scene.instances@[j].material)
        &&& longer[scene.instances@[j].material] == slot_of(scene, classification, j)
    } by {
        if j < id {
            assert(map.contains_key(scene.instances@[j].material));
        }
    }
    assert forall|k: u32| #[trigger] longer.contains_key(k) implies exists|j: int|
        0 <= j < id + 1 && #[trigger] carried(scene, classification, j) && scene.instances@[j].material
            == k by {
        if k == at {
            assert(carried(scene, classification, id));
        } else {
            assert(map.contains_key(k));
        }
    }
}

/// Find the material of an instance that is carried, packing it if it is not
/// packed yet.
fn take_material(
    scene: &Scene,
    classification: &Classification,
    id: usize,
    known: &mut HashMap<u32, u32>,
    subset: &mut Subset,
) -> (r: u32)
    requires
        carried(scene, classification, id as int),
        maps_materials(old(known)@, scene, classification, id as int),
        old(subset).materials@ == packed_materials(scene, classification, id as int),
        old(subset).strings@ == packed_strings(scene, classification, id as int),
    ensures
        r == slot_of(scene, classification, id as int),
        maps_materials(final(known)@, scene, classification, id + 1),
        final(subset).materials@ == packed_materials(scene, classification, id + 1),
        final(subset).strings@ == strings_before_name(scene, classification, id as int),
        final(subset).instances == old(subset).instances,
        final(subset).vertices == old(subset).vertices,
        final(subset).indices == old(subset).indices,
        final(subset).scene_min == old(subset).scene_min,
        final(subset).scene_max == old(subset).scene_max,
{
    broadcast use vstd::std_specs::hash::group_hash_axioms;

    let material: u32 = scene.instances[id].material;
    if let Some(found) = known.get(&material) {
        proof {
            lemma_material_known(known@, scene, classification, id as int);
        }
        return *found;
    }
    proof {
        lemma_material_brought(known@, scene, classification, id as int);
    }
    let slot: u32 = subset.materials.len() as u32;
    let (name_offset, name_len): (u32, u32) = intern(
        &mut subset.strings,
        scene.material_name(material),
    );
    let at: usize = material as usize;
    let colour: [Single; 4] = if at < scene.materials.len() {
        scene.materials[at].colour
    } else {
        [
            Single { bits: HALF },
            Single { bits: HALF },
            Single { bits: HALF },
            Single { bits: OPAQUE },
        ]
    };
    subset.materials.push(PackedMaterial { name_offset, name_len, colour });
    known.insert(material, slot);
    slot
}

/// Take one instance into the subset, if it is on show and can be read.
fn take(
    scene: &Scene,
    classification: &Classification,
    id: usize,
    geometry: &mut HashMap<u128, (u32, u32)>,
    materials: &mut HashMap<u32, u32>,
    cut: &mut Subset,
)
    requires
        id < scene.instances@.len(),
        classification.categories@.len() > 0,
        old(cut).holds(scene, classification, id as int),
        maps_geometry(old(geometry)@, scene, classification, id as int),
        maps_materials(old(materials)@, scene, classification, id as int),
    ensures
        final(cut).holds(scene, classification, id + 1),
        maps_geometry(final(geometry)@, scene, classification, id + 1),
        maps_materials(final(materials)@, scene, classification, id + 1),
{
    if classification.category_of(id).mode == Mode::Hidden {
        proof {
            lemma_geometry_skipped(geometry@, scene, classification, id as int);
            lemma_materials_stay_known(materials@, scene, classification, id as int);
        }
        return;
    }
    match take_geometry(scene, classification, id, geometry, cut) {
        Some((first_index, base_vertex)) => {
            let material: u32 = take_material(scene, classification, id, materials, cut);
            let instance: &Instance = &scene.instances[id];
            let (name_offset, name_len): (u32, u32) = intern(
                &mut cut.strings,
                instance.name.as_str(),
            );
            cut.scene_min = [
                cut.scene_min[0].min(instance.aabb_min[0]),
                cut.scene_min[1].min(instance.aabb_min[1]),
                cut.scene_min[2].min(instance.aabb_min[2]),
            ];
            cut.scene_max = [
                cut.scene_max[0].max(instance.aabb_max[0]),
                cut.scene_max[1].max(instance.aabb_max[1]),
                cut.scene_max[2].max(instance.aabb_max[2]),
            ];
            cut.instances.push(
                Kept { source: id, first_index, base_vertex, material, name_offset, name_len },
            );
        },
        None => {
            proof {
                lemma_materials_stay_known(materials@, scene, classification, id as int);
            }
        },
    }
}

/// Cut the subset that is on show out of a scene: the instances whose category
/// is solid or ghosted, with the geometry and the materials that they use.
///
/// Driving the subset off the live classification means the export is exactly
/// what the viewer is showing, so there is no second list of categories to keep
/// in step with the first.
pub fn subset(scene: &Scene, classification: &Classification) -> (r: Result<Subset, NothingToExport>)
    requires
        classification.categories@.len() > 0,
    ensures
        match r {
            Ok(cut) => {
                &&& cut.cut_from(scene, classification)
                &&& exists|id: int| carried(scene, classification, id)
            },
            Err(_) => forall|id: int| !carried(scene, classification, id),
        },
{
    let mut cut: Subset = Subset {
        instances: Vec::new(),
        materials: Vec::new(),
        strings: Vec::new(),
        vertices: Vec::new(),
        indices: Vec::new(),
        scene_min: [
            Single { bits: INFINITY },
            Single { bits: INFINITY },
            Single { bits: INFINITY },
        ],
        scene_max: [
            Single { bits: NEG_INFINITY },
            Single { bits: NEG_INFINITY },
            Single { bits: NEG_INFINITY },
        ],
    };
    let mut geometry: HashMap<u128, (u32, u32)> = HashMap::new();
    let mut materials: HashMap<u32, u32> = HashMap::new();
    let mut id: usize = 0;
    proof {
        lemma_nothing_known(scene, classification);
    }
    while id < scene.instances.len()
        invariant
            id <= scene.instances@.len(),
            classification.categories@.len() > 0,
            cut.holds(scene, classification, id as int),
            maps_geometry(geometry@, scene, classification, id as int),
            maps_materials(materials@, scene, classification, id as int),
        decreases scene.instances@.len() - id,
    {
        take(scene, classification, id, &mut geometry, &mut materials, &mut cut);
        id += 1;
    }
    proof {
        lemma_something_is_kept(scene, classification, id as int);
    }
    if cut.instances.len() == 0 {
        return Err(NothingToExport);
    }
    Ok(cut)
}

/// What a subset kept of a scene, once its file is `bytes_out` long.
pub fn summary(scene: &Scene, cut: &Subset, bytes_out: usize) -> (r: Summary)
    ensures
        r.instances_in == scene.instances@.len(),
        r.instances_out == cut.instances@.len(),
        r.vertices_in == scene.vertices@.len(),
        r.vertices_out == cut.vertices@.len(),
        r.triangles_out == cut.indices@.len() / 3,
        r.bytes_in == scene.byte_len,
        r.bytes_out == bytes_out,
{
    Summary {
        instances_in: scene.instances.len(),
        instances_out: cut.instances.len(),
        vertices_in: scene.vertices.len(),
        vertices_out: cut.vertices.len(),
        triangles_out: cut.indices.len() / 3,
        bytes_in: scene.byte_len,
        bytes_out,
    }
}

/// Before the first instance nothing is known.
proof fn lemma_nothing_known(scene: &Scene, classification: &Classification)
    ensures
        maps_geometry(Map::empty(), scene, classification, 0),
        maps_materials(Map::empty(), scene, classification, 0),
{
    reveal(maps_geometry);
    reveal(maps_materials);
}

/// Something is kept exactly when something is carried.
proof fn lemma_something_is_kept(scene: &Scene, classification: &Classification, n: int)
    requires
        0 <= n,
    ensures
        packed_instances(scene, classification, n).len() > 0 <==> exists|id: int|
            0 <= id < n && #[trigger] carried(scene, classification, id),
    decreases n,
{
    if n > 0 {
        lemma_something_is_kept(scene, classification, n - 1);
        if carried(scene, classification, n - 1) {
            assert(0 <= n - 1 < n && carried(scene, classification, n - 1));
        }
    }
}

/// What is packed for the first instances stays where it is as more are packed.
pub(crate) proof fn lemma_packing_grows(scene: &Scene, classification: &Classification, from: int, n: int)
    requires
        0 <= from <= n,
    ensures
        packed_indices(scene, classification, from).is_prefix_of(
            packed_indices(scene, classification, n),
        ),
        packed_vertices(scene, classification, from).is_prefix_of(
            packed_vertices(scene, classification, n),
        ),
        packed_materials(scene, classification, from).is_prefix_of(
            packed_materials(scene, classification, n),
        ),
        packed_strings(scene, classification, from).is_prefix_of(
            packed_strings(scene, classification, n),
        ),
    decreases n,
{
    if from < n {
        lemma_packing_grows(scene, classification, from, n - 1);
        assert(strings_before_name(scene, classification, n - 1).len() >= packed_strings(
            scene,
            classification,
            n - 1,
        ).len());
    }
}

/// The end of a prefix reads the same in the whole.
pub(crate) proof fn lemma_end_of_prefix<A>(part: Seq<A>, tail: Seq<A>, prefix: Seq<A>, whole: Seq<A>)
    requires
        prefix == part + tail,
        prefix.is_prefix_of(whole),
    ensures
        part.len() + tail.len() <= whole.len(),
        whole.subrange(part.len() as int, (part.len() + tail.len()) as int) == tail,
{
    assert forall|i: int| 0 <= i < tail.len() implies #[trigger] whole.subrange(
        part.len() as int,
        (part.len() + tail.len()) as int,
    )[i] == tail[i] by {
        assert(whole.subrange(0, prefix.len() as int)[part.len() + i] == prefix[part.len() + i]);
    }
    assert(whole.subrange(part.len() as int, (part.len() + tail.len()) as int) =~= tail);
}

/// What is kept is kept of a carried instance.
pub(crate) proof fn lemma_kept_of(scene: &Scene, classification: &Classification, n: int, k: int) -> (id: int)
    requires
        0 <= n <= scene.instances@.len(),
        0 <= k < packed_instances(scene, classification, n).len(),
    ensures
        0 <= id < n,
        carried(scene, classification, id),
        packed_instances(scene, classification, n)[k] == kept(scene, classification, id),
        packed_instances(scene, classification, n)[k].source == id,
        k == packed_instances(scene, classification, id).len(),
    decreases n,
{
    if n > 0 {
        assert(scene.instances.len() == scene.instances@.len());
        if carried(scene, classification, n - 1) && k == packed_instances(
            scene,
            classification,
            n - 1,
        ).len() {
            n - 1
        } else {
            lemma_kept_of(scene, classification, n - 1, k)
        }
    } else {
        0
    }
}

/// Every instance of the subset draws the same vertices as the instance that it
/// was cut from, in the same order, as long as the pools fit the 32 bits that
/// an instance counts them in.
pub proof fn law_geometry_survives(
    scene: &Scene,
    classification: &Classification,
    cut: &Subset,
    k: int,
    i: int,
)
    requires
        cut.cut_from(scene, classification),
        cut.indices@.len() <= u32::MAX,
        cut.vertices@.len() <= u32::MAX,
        0 <= k < cut.instances@.len(),
        0 <= i < scene.instances@[cut.instances@[k].source as int].index_count,
    ensures
        ({
            let one = cut.instances@[k];
            let whole = scene.instances@[one.source as int];
            let index = cut.indices@[one.first_index + i];
            &&& one.first_index + i < cut.indices@.len()
            &&& one.base_vertex + index < cut.vertices@.len()
            &&& cut.vertices@[one.base_vertex + index] == scene.vertices@[whole.base_vertex
                + scene.indices@[whole.first_index + i]]
        }),
{
    let n = scene.instances@.len() as int;
    let id = lemma_kept_of(scene, classification, n, k);
    let from = geometry_from(scene, classification, id);
    lemma_geometry_source(scene, classification, id);
    lemma_packing_grows(scene, classification, from, n);
    lemma_packing_grows(scene, classification, from + 1, n);
    let whole = scene.instances@[id];
    let brought = scene.instances@[from];
    let indices = drawn(scene, brought);
    lemma_extent(indices);
    lemma_used(indices, greatest(indices) + 1);
    assert(rebased(scene, brought).len() == whole.index_count);
    let first = packed_indices(scene, classification, from).len();
    let base = packed_vertices(scene, classification, from).len();
    assert(packed_indices(scene, classification, from + 1)[first + i] == rebased(scene, brought)[i]);
    assert(indices[i] == scene.indices@[whole.first_index + i]);
    assert(indices.contains(indices[i]));
    let at = rank(indices, indices[i]) as int;
    lemma_used(indices, indices[i] as int);
    assert(touched(indices)[at] == indices[i]);
    assert(packed_vertices(scene, classification, from + 1)[base + at] == vertices_touched(
        scene,
        brought,
    )[at]);
}

/// The subset holds exactly the instances that are on show and can be read, each
/// once and in the order that they had.
pub proof fn law_the_subset_is_what_is_on_show(
    scene: &Scene,
    classification: &Classification,
    cut: &Subset,
)
    requires
        cut.cut_from(scene, classification),
    ensures
        forall|k: int|
            0 <= k < cut.instances@.len() ==> carried(
                scene,
                classification,
                (#[trigger] cut.instances@[k]).source as int,
            ),
        forall|j: int, k: int|
            0 <= j < k < cut.instances@.len() ==> (#[trigger] cut.instances@[j]).source < (
            #[trigger] cut.instances@[k]).source,
        forall|id: int| #[trigger]
            carried(scene, classification, id) ==> exists|k: int|
                0 <= k < cut.instances@.len() && (#[trigger] cut.instances@[k]).source == id,
{
    let n = scene.instances@.len() as int;
    assert forall|k: int| 0 <= k < cut.instances@.len() implies carried(
        scene,
        classification,
        (#[trigger] cut.instances@[k]).source as int,
    ) by {
        let id = lemma_kept_of(scene, classification, n, k);
    }
    assert forall|j: int, k: int| 0 <= j < k < cut.instances@.len() implies (
    #[trigger] cut.instances@[j]).source < (#[trigger] cut.instances@[k]).source by {
        let a = lemma_kept_of(scene, classification, n, j);
        let b = lemma_kept_of(scene, classification, n, k);
        if b < a {
            lemma_instances_grow(scene, classification, b, a);
        }
    }
    assert forall|id: int| #[trigger] carried(scene, classification, id) implies exists|k: int|
        0 <= k < cut.instances@.len() && (#[trigger] cut.instances@[k]).source == id by {
        let k = packed_instances(scene, classification, id).len() as int;
        lemma_instances_grow(scene, classification, id + 1, n);
        assert(scene.instances.len() == scene.instances@.len());
        assert(packed_instances(scene, classification, id + 1)[k] == kept(scene, classification, id));
        assert(cut.instances@[k].source == id);
    }
}

/// Nothing is exported that is not drawn, and of what is drawn only that is left
/// out which cannot be read.
pub proof fn law_the_subset_is_what_is_drawn(scene: &Scene, classification: &Classification, id: int)
    ensures
        carried(scene, classification, id) <==> crate::draw::is_drawn(scene, classification, id)
            && readable(scene, scene.instances@[id]),
{
}

/// What is kept of the first instances stays first.
proof fn lemma_instances_grow(scene: &Scene, classification: &Classification, from: int, n: int)
    requires
        0 <= from <= n,
    ensures
        packed_instances(scene, classification, from).is_prefix_of(
            packed_instances(scene, classification, n),
        ),
    decreases n,
{
    if from < n {
        lemma_instances_grow(scene, classification, from, n - 1);
    }
}

/// Instances that draw the same range of the same vertices share one copy of it.
pub proof fn law_shared_geometry_stays_shared(
    scene: &Scene,
    classification: &Classification,
    cut: &Subset,
    j: int,
    k: int,
)
    requires
        cut.cut_from(scene, classification),
        0 <= j < cut.instances@.len(),
        0 <= k < cut.instances@.len(),
        key(scene.instances@[cut.instances@[j].source as int]) == key(
            scene.instances@[cut.instances@[k].source as int],
        ),
    ensures
        cut.instances@[j].first_index == cut.instances@[k].first_index,
        cut.instances@[j].base_vertex == cut.instances@[k].base_vertex,
{
    let n = scene.instances@.len() as int;
    let a = lemma_kept_of(scene, classification, n, j);
    let b = lemma_kept_of(scene, classification, n, k);
    lemma_geometry_source(scene, classification, a);
}

/// Every instance of the subset keeps its name, as long as the names fit the 32
/// bits that an offset has.
pub proof fn law_names_survive(
    scene: &Scene,
    classification: &Classification,
    cut: &Subset,
    k: int,
)
    requires
        cut.cut_from(scene, classification),
        cut.strings@.len() <= u32::MAX,
        0 <= k < cut.instances@.len(),
    ensures
        ({
            let one = cut.instances@[k];
            &&& one.name_offset + one.name_len <= cut.strings@.len()
            &&& cut.strings@.subrange(one.name_offset as int, one.name_offset + one.name_len)
                == name_bytes(scene, one.source as int)
        }),
{
    let n = scene.instances@.len() as int;
    let id = lemma_kept_of(scene, classification, n, k);
    lemma_packing_grows(scene, classification, id + 1, n);
    let before = strings_before_name(scene, classification, id);
    let after = packed_strings(scene, classification, id + 1);
    assert(after == before + name_bytes(scene, id));
    lemma_end_of_prefix(before, name_bytes(scene, id), after, cut.strings@);
}

/// The numbers of the materials that the first `n` instances bring.
spec fn materials_seen(scene: &Scene, classification: &Classification, n: int) -> Set<int>
    decreases n,
{
    if n <= 0 {
        Set::empty()
    } else if brings_material(scene, classification, n - 1) {
        materials_seen(scene, classification, n - 1).insert(scene.instances@[n - 1].material as int)
    } else {
        materials_seen(scene, classification, n - 1)
    }
}

/// As many materials are packed as different ones were seen.
proof fn lemma_materials_seen(scene: &Scene, classification: &Classification, n: int)
    requires
        0 <= n,
    ensures
        materials_seen(scene, classification, n).finite(),
        materials_seen(scene, classification, n).len() == packed_materials(
            scene,
            classification,
            n,
        ).len(),
        forall|m: int| #[trigger]
            materials_seen(scene, classification, n).contains(m) ==> 0 <= m <= u32::MAX && exists|j: int|
                0 <= j < n && #[trigger] brings_material(scene, classification, j)
                    && scene.instances@[j].material == m,
    decreases n,
{
    if n > 0 {
        lemma_materials_seen(scene, classification, n - 1);
        let before = materials_seen(scene, classification, n - 1);
        let after = materials_seen(scene, classification, n);
        if brings_material(scene, classification, n - 1) {
            let material = scene.instances@[n - 1].material as int;
            if before.contains(material) {
                let j = choose|j: int|
                    0 <= j < n - 1 && #[trigger] brings_material(scene, classification, j)
                        && scene.instances@[j].material == material;
                assert(carried(scene, classification, j));
            }
        }
        assert forall|m: int| #[trigger] after.contains(m) implies 0 <= m <= u32::MAX && exists|j: int|
            0 <= j < n && #[trigger] brings_material(scene, classification, j)
                && scene.instances@[j].material == m by {
            if before.contains(m) {
                let j = choose|j: int|
                    0 <= j < n - 1 && #[trigger] brings_material(scene, classification, j)
                        && scene.instances@[j].material == m;
                assert(0 <= j < n && brings_material(scene, classification, j));
            } else {
                assert(brings_material(scene, classification, n - 1));
            }
        }
    }
}

/// The slot of a material always fits: there are no more materials than numbers
/// for them.
pub(crate) proof fn lemma_slots_fit(scene: &Scene, classification: &Classification, id: int)
    requires
        brings_material(scene, classification, id),
    ensures
        packed_materials(scene, classification, id).len() <= u32::MAX,
{
    lemma_materials_seen(scene, classification, id + 1);
    let numbers = vstd::set_lib::set_int_range(0, 0x1_0000_0000);
    vstd::set_lib::lemma_int_range(0, 0x1_0000_0000);
    vstd::set_lib::lemma_len_subset(materials_seen(scene, classification, id + 1), numbers);
}

/// Every instance of the subset keeps its material: its colour, and its name
/// within the same limits.
pub proof fn law_materials_survive(
    scene: &Scene,
    classification: &Classification,
    cut: &Subset,
    k: int,
)
    requires
        cut.cut_from(scene, classification),
        cut.strings@.len() <= u32::MAX,
        0 <= k < cut.instances@.len(),
    ensures
        ({
            let one = cut.instances@[k];
            let material = cut.materials@[one.material as int];
            &&& one.material < cut.materials@.len()
            &&& material.colour == colour_of(scene, scene.instances@[one.source as int].material)
            &&& material.name_offset + material.name_len <= cut.strings@.len()
            &&& cut.strings@.subrange(
                material.name_offset as int,
                material.name_offset + material.name_len,
            ) == material_bytes(scene, one.source as int)
        }),
{
    let n = scene.instances@.len() as int;
    let id = lemma_kept_of(scene, classification, n, k);
    let from = material_from(scene, classification, id);
    lemma_material_source(scene, classification, id);
    lemma_slots_fit(scene, classification, from);
    lemma_packing_grows(scene, classification, from, n);
    lemma_packing_grows(scene, classification, from + 1, n);
    let at = packed_materials(scene, classification, from).len() as int;
    assert(packed_materials(scene, classification, from + 1)[at] == material_brought(
        scene,
        classification,
        from,
    ));
    let before = packed_strings(scene, classification, from);
    let named = strings_before_name(scene, classification, from);
    assert(named == before + material_bytes(scene, from));
    let after = packed_strings(scene, classification, from + 1);
    assert(named.is_prefix_of(after)) by {
        assert(after == named + name_bytes(scene, from));
        assert(named =~= after.subrange(0, named.len() as int));
    }
    assert(named =~= cut.strings@.subrange(0, named.len() as int)) by {
        assert forall|i: int| 0 <= i < named.len() implies named[i] == cut.strings@[i] by {
            assert(after[i] == cut.strings@.subrange(0, after.len() as int)[i]);
            assert(named[i] == after.subrange(0, named.len() as int)[i]);
        }
    }
    lemma_end_of_prefix(before, material_bytes(scene, from), named, cut.strings@);
}

/// The box of the subset reaches at least as far down as every instance in it
/// whose edge is a number.
pub proof fn law_the_box_covers_from_below(
    scene: &Scene,
    classification: &Classification,
    axis: int,
    n: int,
    id: int,
)
    requires
        0 <= id < n,
        carried(scene, classification, id),
        !scene.instances@[id].aabb_min[axis].nan(),
    ensures
        packed_min(scene, classification, axis, n).at_most(scene.instances@[id].aabb_min[axis]),
    decreases n,
{
    lemma_box_is_made_of_numbers(scene, classification, axis, n - 1);
    if id < n - 1 {
        law_the_box_covers_from_below(scene, classification, axis, n - 1, id);
    }
}

/// The box of the subset reaches at least as far up as every instance in it
/// whose edge is a number.
pub proof fn law_the_box_covers_from_above(
    scene: &Scene,
    classification: &Classification,
    axis: int,
    n: int,
    id: int,
)
    requires
        0 <= id < n,
        carried(scene, classification, id),
        !scene.instances@[id].aabb_max[axis].nan(),
    ensures
        scene.instances@[id].aabb_max[axis].at_most(packed_max(scene, classification, axis, n)),
    decreases n,
{
    lemma_box_is_made_of_numbers(scene, classification, axis, n - 1);
    if id < n - 1 {
        law_the_box_covers_from_above(scene, classification, axis, n - 1, id);
    }
}

/// The box of the subset is the box of what is visible, as long as all that is
/// visible can be read.
pub proof fn law_the_box_is_what_is_visible(
    scene: &Scene,
    classification: &Classification,
    axis: int,
    n: int,
)
    requires
        0 <= n <= scene.instances@.len(),
        forall|id: int|
            0 <= id < n && #[trigger] classification.shows(id) ==> readable(
                scene,
                scene.instances@[id],
            ),
    ensures
        packed_min(scene, classification, axis, n) == classification.lowest(scene, axis, n as nat),
        packed_max(scene, classification, axis, n) == classification.highest(scene, axis, n as nat),
    decreases n,
{
    if n > 0 {
        law_the_box_is_what_is_visible(scene, classification, axis, n - 1);
        assert(classification.shows(n - 1) == carried(scene, classification, n - 1));
    }
}

proof fn lemma_box_is_made_of_numbers(
    scene: &Scene,
    classification: &Classification,
    axis: int,
    n: int,
)
    ensures
        !packed_min(scene, classification, axis, n).nan(),
        !packed_max(scene, classification, axis, n).nan(),
    decreases n,
{
    if n > 0 {
        lemma_box_is_made_of_numbers(scene, classification, axis, n - 1);
    }
}

/// Every vertex that a range is packed with is drawn by it.
pub proof fn law_what_is_packed_is_drawn(scene: &Scene, instance: Instance, j: int)
    requires
        readable(scene, instance),
        0 <= j < vertices_touched(scene, instance).len(),
    ensures
        rebased(scene, instance).contains(j as u32),
        j <= u32::MAX,
{
    let indices = drawn(scene, instance);
    lemma_used(indices, greatest(indices) + 1);
    let index = touched(indices)[j];
    assert(rank(indices, index) == j);
    lemma_used(indices, index as int);
    let i = choose|i: int| 0 <= i < indices.len() && indices[i] == index;
    assert(rebased(scene, instance)[i] == j);
}

/// An instance of the subset draws a packed vertex.
pub open spec fn uses(scene: &Scene, cut: &Subset, k: int, v: int) -> bool {
    let one = cut.instances@[k];
    exists|i: int|
        0 <= i < scene.instances@[one.source as int].index_count && one.base_vertex
            + #[trigger] cut.indices@[one.first_index + i] == v
}

/// Every packed vertex was brought by some instance.
proof fn lemma_vertex_brought(scene: &Scene, classification: &Classification, n: int, v: int) -> (id: int)
    requires
        0 <= n,
        0 <= v < packed_vertices(scene, classification, n).len(),
    ensures
        0 <= id < n,
        brings_geometry(scene, classification, id),
        packed_vertices(scene, classification, id).len() <= v,
        v < packed_vertices(scene, classification, id).len() + vertices_touched(
            scene,
            scene.instances@[id],
        ).len(),
    decreases n,
{
    if v < packed_vertices(scene, classification, n - 1).len() {
        lemma_vertex_brought(scene, classification, n - 1, v)
    } else {
        n - 1
    }
}

/// No vertex is carried along that nothing draws, as long as the pools fit 32
/// bits.
pub proof fn law_no_unused_vertex_is_carried(
    scene: &Scene,
    classification: &Classification,
    cut: &Subset,
    v: int,
)
    requires
        cut.cut_from(scene, classification),
        cut.indices@.len() <= u32::MAX,
        cut.vertices@.len() <= u32::MAX,
        0 <= v < cut.vertices@.len(),
    ensures
        exists|k: int| 0 <= k < cut.instances@.len() && #[trigger] uses(scene, cut, k, v),
{
    let n = scene.instances@.len() as int;
    let id = lemma_vertex_brought(scene, classification, n, v);
    let instance = scene.instances@[id];
    lemma_geometry_source(scene, classification, id);
    lemma_packing_grows(scene, classification, id, n);
    lemma_packing_grows(scene, classification, id + 1, n);
    lemma_instances_grow(scene, classification, id + 1, n);
    assert(scene.instances.len() == scene.instances@.len());
    let k = packed_instances(scene, classification, id).len() as int;
    assert(packed_instances(scene, classification, id + 1)[k] == kept(scene, classification, id));
    let one = cut.instances@[k];
    assert(one == kept(scene, classification, id));
    let base = packed_vertices(scene, classification, id).len();
    let first = packed_indices(scene, classification, id).len();
    let indices = rebased(scene, instance);
    law_what_is_packed_is_drawn(scene, instance, v - base);
    assert(indices.contains((v - base) as u32));
    let i = choose|i: int| 0 <= i < indices.len() && indices[i] == (v - base) as u32;
    assert(packed_indices(scene, classification, id + 1)[first + i] == indices[i]);
    assert(cut.indices@[one.first_index + i] == indices[i]);
    assert(uses(scene, cut, k, v));
}

/// An instance can be read exactly when it draws something, its range lies in the
/// index pool, and every vertex that its indices lead to is in the vertex pool.
pub proof fn law_what_can_be_read(scene: &Scene, instance: Instance)
    ensures
        readable(scene, instance) <==> {
            &&& instance.index_count > 0
            &&& instance.first_index + instance.index_count <= scene.indices@.len()
            &&& forall|i: int|
                0 <= i < instance.index_count ==> instance.base_vertex
                    + #[trigger] scene.indices@[instance.first_index + i] < scene.vertices@.len()
        },
{
    if instance.index_count > 0 && instance.first_index + instance.index_count <= scene.indices@.len() {
        let indices = drawn(scene, instance);
        assert(indices.len() == instance.index_count);
        lemma_extent(indices);
        if readable(scene, instance) {
            assert forall|i: int| 0 <= i < instance.index_count implies instance.base_vertex
                + #[trigger] scene.indices@[instance.first_index + i] < scene.vertices@.len() by {
                assert(indices[i] == scene.indices@[instance.first_index + i]);
            }
        }
        let top = choose|i: int| 0 <= i < indices.len() && indices[i] == greatest(indices);
        assert(indices[top] == scene.indices@[instance.first_index + top]);
    }
}

/// What is on show and can be drawn is exported: for every instance in a category
/// that is not hidden, with indices, whose range lies in the index pool and whose
/// vertices are all in the vertex pool, the subset holds an instance cut from it.
pub proof fn law_everything_on_show_is_exported(
    scene: &Scene,
    classification: &Classification,
    cut: &Subset,
    id: int,
)
    requires
        cut.cut_from(scene, classification),
        0 <= id < scene.instances@.len(),
        id < classification.of_instance@.len(),
        classification.of_instance@[id] < classification.categories@.len(),
        classification.categories@[classification.of_instance@[id] as int].mode != Mode::Hidden,
        scene.instances@[id].index_count > 0,
        scene.instances@[id].first_index + scene.instances@[id].index_count <= scene.indices@.len(),
        forall|i: int|
            0 <= i < scene.instances@[id].index_count ==> scene.instances@[id].base_vertex
                + #[trigger] scene.indices@[scene.instances@[id].first_index + i] < scene.vertices@.len(),
    ensures
        exists|k: int| 0 <= k < cut.instances@.len() && (#[trigger] cut.instances@[k]).source == id,
{
    law_what_can_be_read(scene, scene.instances@[id]);
    assert(carried(scene, classification, id));
    law_the_subset_is_what_is_on_show(scene, classification, cut);
}

/// An export is refused only when there is nothing to export: no instance in a
/// category that is not hidden has indices in the pool that lead to vertices in
/// the pool.
pub proof fn law_an_export_is_refused_only_if_there_is_nothing(
    scene: &Scene,
    classification: &Classification,
    id: int,
)
    requires
        forall|id: int| !#[trigger] carried(scene, classification, id),
        0 <= id < scene.instances@.len(),
        id < classification.of_instance@.len(),
        classification.of_instance@[id] < classification.categories@.len(),
    ensures
        classification.categories@[classification.of_instance@[id] as int].mode == Mode::Hidden
            || scene.instances@[id].index_count == 0 || scene.instances@[id].first_index
            + scene.instances@[id].index_count > scene.indices@.len() || exists|i: int|
            0 <= i < scene.instances@[id].index_count && scene.instances@[id].base_vertex
                + #[trigger] scene.indices@[scene.instances@[id].first_index + i] >= scene.vertices@.len(),
{
    law_what_can_be_read(scene, scene.instances@[id]);
    assert(!carried(scene, classification, id));
}

/// Nothing else is exported: whatever the subset holds was cut from an instance
/// in a category that is not hidden, with indices in the pool that all lead to
/// vertices in the pool, and each from another instance, in their order.
pub proof fn law_nothing_else_is_exported(
    scene: &Scene,
    classification: &Classification,
    cut: &Subset,
    k: int,
)
    requires
        cut.cut_from(scene, classification),
        classification.of_instance@.len() == scene.instances@.len(),
        forall|id: int|
            0 <= id < classification.of_instance@.len() ==> (#[trigger] classification.of_instance@[id])
                < classification.categories@.len(),
        0 <= k < cut.instances@.len(),
    ensures
        ({
            let id = cut.instances@[k].source as int;
            let whole = scene.instances@[id];
            &&& id < scene.instances@.len()
            &&& classification.categories@[classification.of_instance@[id] as int].mode != Mode::Hidden
            &&& whole.index_count > 0
            &&& whole.first_index + whole.index_count <= scene.indices@.len()
            &&& forall|i: int|
                0 <= i < whole.index_count ==> whole.base_vertex
                    + #[trigger] scene.indices@[whole.first_index + i] < scene.vertices@.len()
        }),
        forall|j: int| 0 <= j < k ==> (#[trigger] cut.instances@[j]).source < cut.instances@[k].source,
{
    law_the_subset_is_what_is_on_show(scene, classification, cut);
    let id = cut.instances@[k].source as int;
    assert(carried(scene, classification, id));
    assert(classification.of_instance@[id] < classification.categories@.len());
    law_what_can_be_read(scene, scene.instances@[id]);
}

/// Every instance of the subset keeps the name that it had, and the colour and
/// name of its material; one without a material is drawn in an opaque grey that
/// has no name.
pub proof fn law_what_a_kept_instance_keeps(
    scene: &Scene,
    classification: &Classification,
    cut: &Subset,
    k: int,
)
    requires
        cut.cut_from(scene, classification),
        cut.strings@.len() <= u32::MAX,
        0 <= k < cut.instances@.len(),
    ensures
        ({
            let one = cut.instances@[k];
            let whole = scene.instances@[one.source as int];
            let material = cut.materials@[one.material as int];
            let name = cut.strings@.subrange(one.name_offset as int, one.name_offset + one.name_len);
            let material_name = cut.strings@.subrange(
                material.name_offset as int,
                material.name_offset + material.name_len,
            );
            &&& name == encode_utf8(whole.name@)
            &&& one.material < cut.materials@.len()
            &&& whole.material < scene.materials@.len() ==> {
                &&& material.colour == scene.materials@[whole.material as int].colour
                &&& material_name == encode_utf8(scene.materials@[whole.material as int].name@)
            }
            &&& whole.material >= scene.materials@.len() ==> {
                &&& material.name_len == 0
                &&& material.colour[0].bits == 0x3F00_0000
                &&& material.colour[1].bits == 0x3F00_0000
                &&& material.colour[2].bits == 0x3F00_0000
                &&& material.colour[3].bits == 0x3F80_0000
            }
        }),
{
    law_names_survive(scene, classification, cut, k);
    law_materials_survive(scene, classification, cut, k);
    let one = cut.instances@[k];
    let material = cut.materials@[one.material as int];
    let whole = scene.instances@[one.source as int];
    if whole.material >= scene.materials@.len() {
        assert(encode_utf8(Seq::<char>::empty()) =~= Seq::empty());
        assert(material_bytes(scene, one.source as int).len() == 0);
        assert(cut.strings@.subrange(
            material.name_offset as int,
            material.name_offset + material.name_len,
        ).len() == material.name_len);
    }
}

/// Two instances of the subset share a material exactly when they did before.
pub proof fn law_materials_are_told_apart(
    scene: &Scene,
    classification: &Classification,
    cut: &Subset,
    j: int,
    k: int,
)
    requires
        cut.cut_from(scene, classification),
        0 <= j < cut.instances@.len(),
        0 <= k < cut.instances@.len(),
    ensures
        cut.instances@[j].material == cut.instances@[k].material
            <==> scene.instances@[cut.instances@[j].source as int].material
            == scene.instances@[cut.instances@[k].source as int].material,
{
    let n = scene.instances@.len() as int;
    let a = lemma_kept_of(scene, classification, n, j);
    let b = lemma_kept_of(scene, classification, n, k);
    lemma_material_source(scene, classification, a);
    lemma_material_source(scene, classification, b);
    let from = material_from(scene, classification, a);
    let other = material_from(scene, classification, b);
    lemma_slots_fit(scene, classification, from);
    lemma_slots_fit(scene, classification, other);
    if from < other {
        lemma_packing_grows(scene, classification, from + 1, other);
    } else if other < from {
        lemma_packing_grows(scene, classification, other + 1, from);
    }
}

/// Two instances that draw the same range with the same base vertex share one
/// copy of it.
pub proof fn law_one_range_is_stored_once(
    scene: &Scene,
    classification: &Classification,
    cut: &Subset,
    j: int,
    k: int,
)
    requires
        cut.cut_from(scene, classification),
        0 <= j < cut.instances@.len(),
        0 <= k < cut.instances@.len(),
        ({
            let a = scene.instances@[cut.instances@[j].source as int];
            let b = scene.instances@[cut.instances@[k].source as int];
            a.first_index == b.first_index && a.index_count == b.index_count && a.base_vertex
                == b.base_vertex
        }),
    ensures
        cut.instances@[j].first_index == cut.instances@[k].first_index,
        cut.instances@[j].base_vertex == cut.instances@[k].base_vertex,
{
    law_shared_geometry_stays_shared(scene, classification, cut, j, k);
}

/// Packing keeps the order of the vertices: of two indices that an instance
/// draws, the packed ones compare as they did before, so that no two vertices
/// become one and none is stored twice.
pub proof fn law_packing_keeps_the_order(
    scene: &Scene,
    classification: &Classification,
    cut: &Subset,
    k: int,
    i: int,
    j: int,
)
    requires
        cut.cut_from(scene, classification),
        cut.indices@.len() <= u32::MAX,
        cut.vertices@.len() <= u32::MAX,
        0 <= k < cut.instances@.len(),
        0 <= i < scene.instances@[cut.instances@[k].source as int].index_count,
        0 <= j < scene.instances@[cut.instances@[k].source as int].index_count,
    ensures
        ({
            let one = cut.instances@[k];
            let whole = scene.instances@[one.source as int];
            let a = scene.indices@[whole.first_index + i];
            let b = scene.indices@[whole.first_index + j];
            &&& a < b <==> cut.indices@[one.first_index + i] < cut.indices@[one.first_index + j]
            &&& a == b <==> cut.indices@[one.first_index + i] == cut.indices@[one.first_index + j]
        }),
{
    let n = scene.instances@.len() as int;
    let id = lemma_kept_of(scene, classification, n, k);
    let from = geometry_from(scene, classification, id);
    lemma_geometry_source(scene, classification, id);
    lemma_packing_grows(scene, classification, from, n);
    lemma_packing_grows(scene, classification, from + 1, n);
    let whole = scene.instances@[id];
    let indices = drawn(scene, scene.instances@[from]);
    let first = packed_indices(scene, classification, from).len();
    let packed = rebased(scene, scene.instances@[from]);
    assert(packed_indices(scene, classification, from + 1)[first + i] == packed[i]);
    assert(packed_indices(scene, classification, from + 1)[first + j] == packed[j]);
    let a = indices[i];
    let b = indices[j];
    assert(a == scene.indices@[whole.first_index + i]);
    assert(b == scene.indices@[whole.first_index + j]);
    assert(indices.contains(a) && indices.contains(b));
    lemma_used(indices, a as int);
    lemma_used(indices, b as int);
}

/// Every packed index was brought by some instance.
proof fn lemma_index_brought(scene: &Scene, classification: &Classification, n: int, v: int) -> (id: int)
    requires
        0 <= n,
        0 <= v < packed_indices(scene, classification, n).len(),
    ensures
        0 <= id < n,
        brings_geometry(scene, classification, id),
        packed_indices(scene, classification, id).len() <= v,
        v < packed_indices(scene, classification, id).len() + rebased(
            scene,
            scene.instances@[id],
        ).len(),
    decreases n,
{
    if v < packed_indices(scene, classification, n - 1).len() {
        lemma_index_brought(scene, classification, n - 1, v)
    } else {
        n - 1
    }
}

/// No index is carried along that nothing draws, as long as the pools fit 32
/// bits.
pub proof fn law_no_unused_index_is_carried(
    scene: &Scene,
    classification: &Classification,
    cut: &Subset,
    v: int,
)
    requires
        cut.cut_from(scene, classification),
        cut.indices@.len() <= u32::MAX,
        cut.vertices@.len() <= u32::MAX,
        0 <= v < cut.indices@.len(),
    ensures
        exists|k: int|
            {
                &&& 0 <= k < cut.instances@.len()
                &&& (#[trigger] cut.instances@[k]).first_index <= v
                &&& v < cut.instances@[k].first_index
                    + scene.instances@[cut.instances@[k].source as int].index_count
            },
{
    let n = scene.instances@.len() as int;
    let id = lemma_index_brought(scene, classification, n, v);
    lemma_geometry_source(scene, classification, id);
    lemma_packing_grows(scene, classification, id, n);
    lemma_instances_grow(scene, classification, id + 1, n);
    assert(scene.instances.len() == scene.instances@.len());
    let k = packed_instances(scene, classification, id).len() as int;
    assert(packed_instances(scene, classification, id + 1)[k] == kept(scene, classification, id));
    let one = cut.instances@[k];
    assert(one == kept(scene, classification, id));
}

/// No material is carried along that nothing is drawn with.
pub proof fn law_no_unused_material_is_carried(
    scene: &Scene,
    classification: &Classification,
    cut: &Subset,
    m: int,
)
    requires
        cut.cut_from(scene, classification),
        0 <= m < cut.materials@.len(),
    ensures
        exists|k: int| 0 <= k < cut.instances@.len() && (#[trigger] cut.instances@[k]).material == m,
{
    let n = scene.instances@.len() as int;
    let id = lemma_slot_brought(scene, classification, n, m);
    lemma_material_source(scene, classification, id);
    lemma_slots_fit(scene, classification, id);
    lemma_instances_grow(scene, classification, id + 1, n);
    assert(scene.instances.len() == scene.instances@.len());
    let k = packed_instances(scene, classification, id).len() as int;
    assert(packed_instances(scene, classification, id + 1)[k] == kept(scene, classification, id));
    let one = cut.instances@[k];
    assert(one == kept(scene, classification, id));
}

proof fn lemma_slot_brought(scene: &Scene, classification: &Classification, n: int, m: int) -> (id: int)
    requires
        0 <= n,
        0 <= m < packed_materials(scene, classification, n).len(),
    ensures
        0 <= id < n,
        brings_material(scene, classification, id),
        packed_materials(scene, classification, id).len() == m,
    decreases n,
{
    if m < packed_materials(scene, classification, n - 1).len() {
        lemma_slot_brought(scene, classification, n - 1, m)
    } else {
        n - 1
    }
}

/// The box of the subset is the smallest around what it holds: it reaches as far
/// down and up as every instance in it, and each side is where one of them ends,
/// unless none ends at a number.
pub proof fn law_the_box_is_tight(
    scene: &Scene,
    classification: &Classification,
    cut: &Subset,
    axis: int,
    k: int,
)
    requires
        cut.cut_from(scene, classification),
        0 <= axis < 3,
        0 <= k < cut.instances@.len(),
    ensures
        ({
            let one = scene.instances@[cut.instances@[k].source as int];
            let low = cut.scene_min[axis];
            let high = cut.scene_max[axis];
            &&& !one.aabb_min[axis].nan() ==> value(low) <= value(one.aabb_min[axis])
            &&& !one.aabb_max[axis].nan() ==> value(one.aabb_max[axis]) <= value(high)
            &&& low.bits == 0x7F80_0000 || exists|j: int|
                0 <= j < cut.instances@.len() && scene.instances@[(
                #[trigger] cut.instances@[j]).source as int].aabb_min[axis] == low
            &&& high.bits == 0xFF80_0000 || exists|j: int|
                0 <= j < cut.instances@.len() && scene.instances@[(
                #[trigger] cut.instances@[j]).source as int].aabb_max[axis] == high
        }),
{
    let n = scene.instances@.len() as int;
    law_the_subset_is_what_is_on_show(scene, classification, cut);
    let id = cut.instances@[k].source as int;
    assert(carried(scene, classification, id));
    let low = cut.scene_min[axis];
    let high = cut.scene_max[axis];
    lemma_box_is_made_of_numbers(scene, classification, axis, n);
    if !scene.instances@[id].aabb_min[axis].nan() {
        law_the_box_covers_from_below(scene, classification, axis, n, id);
        law_numbers_are_ordered_by_value(low, scene.instances@[id].aabb_min[axis]);
    }
    if !scene.instances@[id].aabb_max[axis].nan() {
        law_the_box_covers_from_above(scene, classification, axis, n, id);
        law_numbers_are_ordered_by_value(scene.instances@[id].aabb_max[axis], high);
    }
    let (a, b) = lemma_box_is_reached(scene, classification, axis, n);
    if low.bits != 0x7F80_0000 {
        assert(carried(scene, classification, a));
        let j = choose|j: int|
            0 <= j < cut.instances@.len() && (#[trigger] cut.instances@[j]).source == a;
        assert(cut.instances@[j].source == a);
    }
    if high.bits != 0xFF80_0000 {
        assert(carried(scene, classification, b));
        let j = choose|j: int|
            0 <= j < cut.instances@.len() && (#[trigger] cut.instances@[j]).source == b;
        assert(cut.instances@[j].source == b);
    }
}

proof fn lemma_box_is_reached(scene: &Scene, classification: &Classification, axis: int, n: int) -> (
    at: (int, int))
    ensures
        packed_min(scene, classification, axis, n).bits == 0x7F80_0000 || {
            &&& carried(scene, classification, at.0)
            &&& scene.instances@[at.0].aabb_min[axis] == packed_min(scene, classification, axis, n)
        },
        packed_max(scene, classification, axis, n).bits == 0xFF80_0000 || {
            &&& carried(scene, classification, at.1)
            &&& scene.instances@[at.1].aabb_max[axis] == packed_max(scene, classification, axis, n)
        },
    decreases n,
{
    if n <= 0 {
        (0, 0)
    } else {
        let (a, b) = lemma_box_is_reached(scene, classification, axis, n - 1);
        let low = packed_min(scene, classification, axis, n - 1);
        let high = packed_max(scene, classification, axis, n - 1);
        (
            if packed_min(scene, classification, axis, n) == low {
                a
            } else {
                n - 1
            },
            if packed_max(scene, classification, axis, n) == high {
                b
            } else {
                n - 1
            },
        )
    }
}

/// No byte is carried along in the strings that is not part of a name: of a kept
/// instance, or of a material, as long as the strings fit the 32 bits that an
/// offset has.
pub proof fn law_no_unused_byte_is_carried(
    scene: &Scene,
    classification: &Classification,
    cut: &Subset,
    b: int,
)
    requires
        cut.cut_from(scene, classification),
        cut.strings@.len() <= u32::MAX,
        0 <= b < cut.strings@.len(),
    ensures
        (exists|k: int|
            {
                &&& 0 <= k < cut.instances@.len()
                &&& (#[trigger] cut.instances@[k]).name_offset <= b
                &&& b < cut.instances@[k].name_offset + cut.instances@[k].name_len
            }) || (exists|m: int|
            {
                &&& 0 <= m < cut.materials@.len()
                &&& (#[trigger] cut.materials@[m]).name_offset <= b
                &&& b < cut.materials@[m].name_offset + cut.materials@[m].name_len
            }),
{
    let n = scene.instances@.len() as int;
    let id = lemma_byte_brought(scene, classification, n, b);
    let before = packed_strings(scene, classification, id).len();
    let named = strings_before_name(scene, classification, id).len();
    lemma_packing_grows(scene, classification, id, n);
    lemma_packing_grows(scene, classification, id + 1, n);
    assert(packed_strings(scene, classification, id + 1).len() == named + name_bytes(scene, id).len());
    if b < named {
        assert(brings_material(scene, classification, id));
        let m = packed_materials(scene, classification, id).len() as int;
        assert(packed_materials(scene, classification, id + 1)[m] == material_brought(
            scene,
            classification,
            id,
        ));
        let material = cut.materials@[m];
        assert(material == material_brought(scene, classification, id));
    } else {
        lemma_instances_grow(scene, classification, id + 1, n);
        assert(scene.instances.len() == scene.instances@.len());
        let k = packed_instances(scene, classification, id).len() as int;
        assert(packed_instances(scene, classification, id + 1)[k] == kept(scene, classification, id));
        let one = cut.instances@[k];
        assert(one == kept(scene, classification, id));
    }
}

proof fn lemma_byte_brought(scene: &Scene, classification: &Classification, n: int, b: int) -> (id: int)
    requires
        0 <= n,
        0 <= b < packed_strings(scene, classification, n).len(),
    ensures
        0 <= id < n,
        carried(scene, classification, id),
        packed_strings(scene, classification, id).len() <= b,
        b < packed_strings(scene, classification, id + 1).len(),
    decreases n,
{
    if b < packed_strings(scene, classification, n - 1).len() {
        lemma_byte_brought(scene, classification, n - 1, b)
    } else {
        n - 1
    }
}

} // verus!
