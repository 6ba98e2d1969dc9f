//! A subset that was published, opened again.
//!
//! The viewer that opens a published scene runs the same rules on it as the one
//! that cut it: what was a pipe is still a pipe, and publishing all of it once
//! more gives the same file.
use crate::category::{classifies, claimed_by, Classification, Mode};
use crate::export::{
    brings_geometry, brings_material, carried, colour_of, drawn, geometry_from, greatest, kept, key,
    law_materials_survive, law_names_survive, law_the_subset_is_what_is_on_show,
    lemma_end_of_prefix, lemma_extent, lemma_geometry_source, lemma_kept_of, lemma_material_source,
    lemma_packing_grows, lemma_slots_fit, lemma_used, material_brought, material_bytes,
    material_from, name_bytes, packed_indices, packed_instances, packed_materials, packed_max,
    packed_min, packed_strings, packed_vertices, rank, ranked, readable, rebased,
    strings_before_name, touched, used, vertices_touched, Kept, PackedMaterial, Subset,
};
use crate::file::{
    fits, is_file_in, law_equal_subsets_have_equal_headers, law_equal_subsets_make_equal_files,
    law_sections_are_apart, same_contents, says, Header, Plan,
};
use crate::pattern::law_the_material_decides_first;
use crate::scene::{Instance, Material, Scene};
use crate::single::Single;
use vstd::prelude::*;
use vstd::utf8::encode_utf8;

verus! {

/// The pools and the strings fit the 32 bits that the file's records count them
/// in.
pub open spec fn is_countable(cut: &Subset) -> bool {
    &&& cut.indices@.len() <= u32::MAX
    &&& cut.vertices@.len() <= u32::MAX
    &&& cut.strings@.len() <= u32::MAX
}

/// A text is the one that stands at a place of the packed strings.
pub open spec fn is_text_at(text: Seq<char>, strings: Seq<u8>, offset: u32, len: u32) -> bool {
    encode_utf8(text) == strings.subrange(offset as int, offset + len)
}

/// A material is what the file of a subset says of it.
pub open spec fn is_material_of(material: Material, cut: &Subset, packed: PackedMaterial) -> bool {
    &&& material.colour == packed.colour
    &&& is_text_at(material.name@, cut.strings@, packed.name_offset, packed.name_len)
}

/// An instance is what the file of a subset says of it: what the subset keeps,
/// and for the rest what the instance has that it was cut from.
pub open spec fn is_instance_of(instance: Instance, cut: &Subset, one: Kept, whole: Instance) -> bool {
    &&& instance.first_index == one.first_index
    &&& instance.base_vertex == one.base_vertex
    &&& instance.material == one.material
    &&& instance.index_count == whole.index_count
    &&& instance.transform == whole.transform
    &&& instance.aabb_min == whole.aabb_min
    &&& instance.aabb_max == whole.aabb_max
    &&& is_text_at(instance.name@, cut.strings@, one.name_offset, one.name_len)
}

/// A scene is what the file of a subset says, opened.
pub open spec fn opens_as(scene: &Scene, cut: &Subset, opened: &Scene) -> bool {
    &&& opened.bake_hash == scene.bake_hash
    &&& opened.vertices@ == cut.vertices@
    &&& opened.indices@ == cut.indices@
    &&& opened.materials@.len() == cut.materials@.len()
    &&& forall|m: int|
        0 <= m < opened.materials@.len() ==> is_material_of(
            #[trigger] opened.materials@[m],
            cut,
            cut.materials@[m],
        )
    &&& opened.instances@.len() == cut.instances@.len()
    &&& forall|k: int|
        0 <= k < opened.instances@.len() ==> is_instance_of(
            #[trigger] opened.instances@[k],
            cut,
            cut.instances@[k],
            scene.instances@[cut.instances@[k].source as int],
        )
}

/// Different texts are different bytes.
proof fn lemma_bytes_tell(a: Seq<char>, b: Seq<char>)
    requires
        encode_utf8(a) == encode_utf8(b),
    ensures
        a == b,
{
    vstd::utf8::encode_utf8_decode_utf8(a);
    vstd::utf8::encode_utf8_decode_utf8(b);
}

/// What an instance is called, and what it is made of, survives publishing.
proof fn lemma_texts_survive(
    scene: &Scene,
    classification: &Classification,
    cut: &Subset,
    opened: &Scene,
    k: int,
)
    requires
        cut.cut_from(scene, classification),
        cut.strings@.len() <= u32::MAX,
        opens_as(scene, cut, opened),
        0 <= k < cut.instances@.len(),
    ensures
        name_bytes(opened, k) == name_bytes(scene, cut.instances@[k].source as int),
        material_bytes(opened, k) == material_bytes(scene, cut.instances@[k].source as int),
        colour_of(opened, opened.instances@[k].material) == colour_of(
            scene,
            scene.instances@[cut.instances@[k].source as int].material,
        ),
{
    law_names_survive(scene, classification, cut, k);
    law_materials_survive(scene, classification, cut, k);
    let one = cut.instances@[k];
    assert(is_instance_of(
        opened.instances@[k],
        cut,
        one,
        scene.instances@[one.source as int],
    ));
    assert(is_material_of(
        opened.materials@[one.material as int],
        cut,
        cut.materials@[one.material as int],
    ));
}

/// Every instance of a published scene is what it was in the full one: it has
/// its name and its material, and the categories of the two scenes agree on it,
/// as long as the names fit the 32 bits that an offset has.
pub proof fn law_published_instances_keep_their_category(
    scene: &Scene,
    classification: &Classification,
    cut: &Subset,
    opened: &Scene,
    before: Seq<u8>,
    after: Seq<u8>,
    k: int,
)
    requires
        cut.cut_from(scene, classification),
        cut.strings@.len() <= u32::MAX,
        opens_as(scene, cut, opened),
        classifies(scene, before),
        classifies(opened, after),
        0 <= k < cut.instances@.len(),
    ensures
        opened.name_of(k) == scene.name_of(cut.instances@[k].source as int),
        opened.material_of(k) == scene.material_of(cut.instances@[k].source as int),
        after[k] == before[cut.instances@[k].source as int],
{
    let id = cut.instances@[k].source as int;
    law_the_subset_is_what_is_on_show(scene, classification, cut);
    assert(carried(scene, classification, id));
    lemma_texts_survive(scene, classification, cut, opened, k);
    lemma_bytes_tell(opened.name_of(k), scene.name_of(id));
    lemma_bytes_tell(opened.material_of(k), scene.material_of(id));
    let by_name = claimed_by(scene.name_of(id));
    law_the_material_decides_first(
        claimed_by(scene.material_of(id)),
        by_name,
        by_name,
        after[k] as int,
        before[id] as int,
    );
}

/// Every number below the number of different indices is the rank of one.
proof fn lemma_ranks_have_no_gaps(indices: Seq<u32>, v: u32)
    requires
        v < touched(indices).len(),
    ensures
        ranked(indices).contains(v),
{
    lemma_used(indices, greatest(indices) + 1);
    let index = touched(indices)[v as int];
    assert(rank(indices, index) == v);
    assert(indices.contains(index));
    let i = choose|i: int| 0 <= i < indices.len() && indices[i] == index;
    assert(ranked(indices)[i] == v);
}

/// Ranks are below the number of different indices, and the greatest is the last
/// below it.
proof fn lemma_ranks_are_few(indices: Seq<u32>)
    requires
        indices.len() > 0,
    ensures
        forall|i: int|
            0 <= i < indices.len() ==> (#[trigger] ranked(indices)[i]) < touched(indices).len(),
        greatest(ranked(indices)) + 1 == touched(indices).len(),
{
    let ranks = ranked(indices);
    lemma_extent(indices);
    lemma_extent(ranks);
    lemma_used(indices, greatest(indices) + 1);
    let size = touched(indices).len() as int;
    assert forall|i: int| 0 <= i < ranks.len() implies (#[trigger] ranks[i]) < size by {
        assert(indices.contains(indices[i]));
        lemma_used(indices, indices[i] as int);
    }
    assert(ranks[0] < size);
    assert(ranks.contains(greatest(ranks)));
    let last = (size - 1) as u32;
    lemma_ranks_have_no_gaps(indices, last);
    let i = choose|i: int| 0 <= i < ranks.len() && ranks[i] == last;
    assert(ranks[i] <= greatest(ranks));
}

/// The first `n` numbers.
spec fn numbers(n: nat) -> Seq<u32> {
    Seq::new(n, |j: int| j as u32)
}

/// The numbers below a rank are all ranks.
proof fn lemma_ranks_below(indices: Seq<u32>, n: int)
    requires
        0 <= n <= touched(indices).len(),
    ensures
        used(ranked(indices), n) == numbers(n as nat),
    decreases n,
{
    lemma_used(indices, greatest(indices) + 1);
    if n > 0 {
        lemma_ranks_below(indices, n - 1);
        lemma_ranks_have_no_gaps(indices, (n - 1) as u32);
    }
    assert(used(ranked(indices), n) =~= numbers(n as nat));
}

/// Ranking ranks changes nothing.
proof fn lemma_ranking_twice(indices: Seq<u32>)
    requires
        indices.len() > 0,
    ensures
        ranked(ranked(indices)) == ranked(indices),
        touched(ranked(indices)) == numbers(touched(indices).len()),
{
    let ranks = ranked(indices);
    lemma_ranks_are_few(indices);
    assert forall|i: int| 0 <= i < ranks.len() implies #[trigger] ranked(ranks)[i] == ranks[i] by {
        lemma_ranks_below(indices, ranks[i] as int);
    }
    assert(ranked(ranks) =~= ranks);
    lemma_ranks_below(indices, touched(indices).len() as int);
}

/// What an instance of a subset draws stands in the packed pools where the
/// instance says.
proof fn lemma_geometry_place(
    scene: &Scene,
    classification: &Classification,
    cut: &Subset,
    k: int,
)
    requires
        cut.cut_from(scene, classification),
        is_countable(cut),
        0 <= k < cut.instances@.len(),
    ensures
        ({
            let one = cut.instances@[k];
            let whole = scene.instances@[one.source as int];
            let ranks = rebased(scene, whole);
            let vertices = vertices_touched(scene, whole);
            &&& readable(scene, whole)
            &&& one.first_index + ranks.len() <= cut.indices@.len()
            &&& cut.indices@.subrange(one.first_index as int, one.first_index + ranks.len()) == ranks
            &&& one.base_vertex + vertices.len() <= cut.vertices@.len()
            &&& cut.vertices@.subrange(one.base_vertex as int, one.base_vertex + vertices.len())
                == vertices
        }),
{
    let n = scene.instances@.len() as int;
    let id = lemma_kept_of(scene, classification, n, k);
    let from = geometry_from(scene, classification, id);
    lemma_geometry_source(scene, classification, id);
    lemma_packing_grows(scene, classification, from, n);
    lemma_packing_grows(scene, classification, from + 1, n);
    let whole = scene.instances@[id];
    let brought = scene.instances@[from];
    assert(drawn(scene, whole) == drawn(scene, brought));
    assert(rebased(scene, whole) == rebased(scene, brought));
    assert(vertices_touched(scene, whole) == vertices_touched(scene, brought));
    lemma_end_of_prefix(
        packed_indices(scene, classification, from),
        rebased(scene, whole),
        packed_indices(scene, classification, from + 1),
        cut.indices@,
    );
    lemma_end_of_prefix(
        packed_vertices(scene, classification, from),
        vertices_touched(scene, whole),
        packed_vertices(scene, classification, from + 1),
        cut.vertices@,
    );
}

/// Packing what is packed already changes nothing.
proof fn lemma_packing_twice(
    scene: &Scene,
    whole: Instance,
    opened: &Scene,
    one: Instance,
)
    requires
        readable(scene, whole),
        one.index_count == whole.index_count,
        one.first_index + one.index_count <= opened.indices@.len(),
        drawn(opened, one) == rebased(scene, whole),
        one.base_vertex + vertices_touched(scene, whole).len() <= opened.vertices@.len(),
        opened.vertices@.subrange(
            one.base_vertex as int,
            one.base_vertex + vertices_touched(scene, whole).len(),
        ) == vertices_touched(scene, whole),
    ensures
        readable(opened, one),
        rebased(opened, one) == rebased(scene, whole),
        vertices_touched(opened, one) == vertices_touched(scene, whole),
{
    let indices = drawn(scene, whole);
    let ranks = ranked(indices);
    lemma_ranking_twice(indices);
    lemma_ranks_are_few(indices);
    let vertices = vertices_touched(scene, whole);
    let part = opened.vertices@.subrange(
        one.base_vertex as int,
        one.base_vertex + vertices.len(),
    );
    let again = vertices_touched(opened, one);
    assert(again.len() == vertices.len());
    assert forall|j: int| 0 <= j < vertices.len() implies #[trigger] again[j] == vertices[j] by {
        assert(touched(ranks)[j] == j);
        assert(part[j] == opened.vertices@[one.base_vertex + j]);
    }
    assert(again =~= vertices);
}

/// An instance of a published scene draws the packed range that was made of what
/// it drew before, and packing that range once more changes nothing.
proof fn lemma_geometry_is_packed(
    scene: &Scene,
    classification: &Classification,
    cut: &Subset,
    opened: &Scene,
    k: int,
)
    requires
        cut.cut_from(scene, classification),
        is_countable(cut),
        opens_as(scene, cut, opened),
        0 <= k < cut.instances@.len(),
    ensures
        ({
            let whole = scene.instances@[cut.instances@[k].source as int];
            let one = opened.instances@[k];
            &&& readable(opened, one)
            &&& rebased(opened, one) == rebased(scene, whole)
            &&& vertices_touched(opened, one) == vertices_touched(scene, whole)
        }),
{
    lemma_geometry_place(scene, classification, cut, k);
    let whole = scene.instances@[cut.instances@[k].source as int];
    assert(is_instance_of(opened.instances@[k], cut, cut.instances@[k], whole));
    assert(rebased(scene, whole).len() == whole.index_count);
    lemma_packing_twice(scene, whole, opened, opened.instances@[k]);
}

/// Two instances share packed geometry exactly when they shared geometry before.
proof fn lemma_sharing_survives(
    scene: &Scene,
    classification: &Classification,
    cut: &Subset,
    opened: &Scene,
    j: int,
    k: int,
)
    requires
        cut.cut_from(scene, classification),
        is_countable(cut),
        opens_as(scene, cut, opened),
        0 <= j < cut.instances@.len(),
        0 <= k < cut.instances@.len(),
    ensures
        ({
            let a = scene.instances@[cut.instances@[j].source as int];
            let b = scene.instances@[cut.instances@[k].source as int];
            &&& key(opened.instances@[j]) == key(opened.instances@[k]) <==> key(a) == key(b)
            &&& opened.instances@[j].material == opened.instances@[k].material <==> a.material
                == b.material
        }),
{
    let n = scene.instances@.len() as int;
    let a = lemma_kept_of(scene, classification, n, j);
    let b = lemma_kept_of(scene, classification, n, k);
    assert(is_instance_of(opened.instances@[j], cut, cut.instances@[j], scene.instances@[a]));
    assert(is_instance_of(opened.instances@[k], cut, cut.instances@[k], scene.instances@[b]));
    lemma_geometry_source(scene, classification, a);
    lemma_geometry_source(scene, classification, b);
    lemma_material_source(scene, classification, a);
    lemma_material_source(scene, classification, b);
    lemma_places_differ(
        scene,
        classification,
        geometry_from(scene, classification, a),
        geometry_from(scene, classification, b),
    );
    lemma_slots_differ(
        scene,
        classification,
        material_from(scene, classification, a),
        material_from(scene, classification, b),
    );
}

/// Two pieces of geometry start at two places.
proof fn lemma_places_differ(scene: &Scene, classification: &Classification, a: int, b: int)
    requires
        brings_geometry(scene, classification, a),
        brings_geometry(scene, classification, b),
        packed_indices(scene, classification, scene.instances@.len() as int).len() <= u32::MAX,
    ensures
        packed_indices(scene, classification, a).len() <= u32::MAX,
        packed_indices(scene, classification, b).len() <= u32::MAX,
        packed_indices(scene, classification, a).len() == packed_indices(
            scene,
            classification,
            b,
        ).len() ==> a == b,
{
    let n = scene.instances@.len() as int;
    lemma_packing_grows(scene, classification, a, n);
    lemma_packing_grows(scene, classification, b, n);
    assert(rebased(scene, scene.instances@[a]).len() > 0);
    assert(rebased(scene, scene.instances@[b]).len() > 0);
    if a < b {
        lemma_packing_grows(scene, classification, a + 1, b);
    } else if b < a {
        lemma_packing_grows(scene, classification, b + 1, a);
    }
}

/// Two materials have two slots.
proof fn lemma_slots_differ(scene: &Scene, classification: &Classification, a: int, b: int)
    requires
        brings_material(scene, classification, a),
        brings_material(scene, classification, b),
    ensures
        packed_materials(scene, classification, a).len() <= u32::MAX,
        packed_materials(scene, classification, b).len() <= u32::MAX,
        packed_materials(scene, classification, a).len() == packed_materials(
            scene,
            classification,
            b,
        ).len() ==> a == b,
{
    lemma_slots_fit(scene, classification, a);
    lemma_slots_fit(scene, classification, b);
    if a < b {
        lemma_packing_grows(scene, classification, a + 1, b);
    } else if b < a {
        lemma_packing_grows(scene, classification, b + 1, a);
    }
}

/// A classification shows all of a scene.
pub open spec fn shows_all(scene: &Scene, classification: &Classification) -> bool {
    forall|id: int|
        0 <= id < scene.instances@.len() ==> #[trigger] classification.mode_at(id) != Mode::Hidden
}

/// How much of the full scene the first `k` instances of a subset stand for: all
/// that comes before the next one.
spec fn reach(scene: &Scene, cut: &Subset, k: int) -> int {
    if k < cut.instances@.len() {
        cut.instances@[k].source as int
    } else {
        scene.instances@.len() as int
    }
}

/// Instances that are not carried leave everything packed as it is.
proof fn lemma_nothing_in_between(scene: &Scene, classification: &Classification, a: int, b: int)
    requires
        0 <= a <= b,
        forall|id: int| a <= id < b ==> !#[trigger] carried(scene, classification, id),
    ensures
        packed_indices(scene, classification, a) == packed_indices(scene, classification, b),
        packed_vertices(scene, classification, a) == packed_vertices(scene, classification, b),
        packed_materials(scene, classification, a) == packed_materials(scene, classification, b),
        packed_strings(scene, classification, a) == packed_strings(scene, classification, b),
        forall|axis: int| #[trigger]
            packed_min(scene, classification, axis, a) == packed_min(scene, classification, axis, b),
        forall|axis: int| #[trigger]
            packed_max(scene, classification, axis, a) == packed_max(scene, classification, axis, b),
    decreases b,
{
    if a < b {
        lemma_nothing_in_between(scene, classification, a, b - 1);
        assert(!carried(scene, classification, b - 1));
    }
}

/// Between one instance of a subset and the next nothing is carried.
proof fn lemma_reach(scene: &Scene, classification: &Classification, cut: &Subset, k: int)
    requires
        cut.cut_from(scene, classification),
        0 <= k <= cut.instances@.len(),
    ensures
        0 <= reach(scene, cut, k) <= scene.instances@.len(),
        k < cut.instances@.len() ==> carried(scene, classification, reach(scene, cut, k)),
        k == 0 ==> forall|id: int|
            0 <= id < reach(scene, cut, 0) ==> !#[trigger] carried(scene, classification, id),
        k > 0 ==> {
            &&& reach(scene, cut, k - 1) < reach(scene, cut, k)
            &&& forall|id: int|
                reach(scene, cut, k - 1) < id < reach(scene, cut, k) ==> !#[trigger] carried(
                    scene,
                    classification,
                    id,
                )
        },
{
    law_the_subset_is_what_is_on_show(scene, classification, cut);
    if k < cut.instances@.len() {
        let one = cut.instances@[k];
    }
    if k > 0 {
        let before = cut.instances@[k - 1];
    }
    assert forall|id: int|
        (k > 0 ==> reach(scene, cut, k - 1) < id) && 0 <= id < reach(scene, cut, k) implies !#[trigger] carried(
        scene,
        classification,
        id,
    ) by {
        if carried(scene, classification, id) {
            let j = choose|j: int|
                0 <= j < cut.instances@.len() && (#[trigger] cut.instances@[j]).source == id;
            if j < k - 1 {
                assert(cut.instances@[j].source < cut.instances@[k - 1].source);
            }
            if k < j {
                assert(cut.instances@[k].source < cut.instances@[j].source);
            }
        }
    }
}

/// An instance of a published scene brings geometry and material exactly when
/// the instance did that it was cut from.
proof fn lemma_bringing_survives(
    scene: &Scene,
    classification: &Classification,
    cut: &Subset,
    opened: &Scene,
    shown: &Classification,
    k: int,
)
    requires
        cut.cut_from(scene, classification),
        is_countable(cut),
        opens_as(scene, cut, opened),
        shows_all(opened, shown),
        0 <= k < cut.instances@.len(),
    ensures
        carried(opened, shown, k),
        brings_geometry(opened, shown, k) <==> brings_geometry(
            scene,
            classification,
            cut.instances@[k].source as int,
        ),
        brings_material(opened, shown, k) <==> brings_material(
            scene,
            classification,
            cut.instances@[k].source as int,
        ),
{
    law_the_subset_is_what_is_on_show(scene, classification, cut);
    let id = cut.instances@[k].source as int;
    assert(carried(scene, classification, id));
    assert forall|j: int| 0 <= j <= k implies #[trigger] carried(opened, shown, j) by {
        lemma_geometry_is_packed(scene, classification, cut, opened, j);
        assert(shown.mode_at(j) != Mode::Hidden);
    }
    assert forall|j: int| 0 <= j < k implies {
        let a = scene.instances@[(#[trigger] cut.instances@[j]).source as int];
        &&& carried(scene, classification, cut.instances@[j].source as int)
        &&& cut.instances@[j].source < id
        &&& carried(opened, shown, j)
        &&& key(opened.instances@[j]) == key(opened.instances@[k]) <==> key(a) == key(
            scene.instances@[id],
        )
        &&& opened.instances@[j].material == opened.instances@[k].material <==> a.material
            == scene.instances@[id].material
    } by {
        lemma_sharing_survives(scene, classification, cut, opened, j, k);
    }
    assert forall|other: int| 0 <= other < id && #[trigger] carried(scene, classification, other) implies exists|
        j: int,
    | 0 <= j < k && (#[trigger] cut.instances@[j]).source == other by {
        let j = choose|j: int|
            0 <= j < cut.instances@.len() && (#[trigger] cut.instances@[j]).source == other;
        if k < j {
            assert(cut.instances@[k].source < cut.instances@[j].source);
        }
        assert(j < k);
    }
    if brings_geometry(scene, classification, id) {
        assert forall|j: int| 0 <= j < k && #[trigger] carried(opened, shown, j) implies key(
            opened.instances@[j],
        ) != key(opened.instances@[k]) by {
            let one = cut.instances@[j];
        }
    }
    if brings_material(scene, classification, id) {
        assert forall|j: int| 0 <= j < k && #[trigger] carried(opened, shown, j) implies opened.instances@[j].material
            != opened.instances@[k].material by {
            let one = cut.instances@[j];
        }
    }
}

/// The first instances of a published scene pack to what the part of the full
/// scene packs to that they stand for.
proof fn lemma_pools_again(
    scene: &Scene,
    classification: &Classification,
    cut: &Subset,
    opened: &Scene,
    shown: &Classification,
    k: int,
)
    requires
        cut.cut_from(scene, classification),
        is_countable(cut),
        opens_as(scene, cut, opened),
        shows_all(opened, shown),
        0 <= k <= cut.instances@.len(),
    ensures
        ({
            let n = reach(scene, cut, k);
            &&& packed_indices(opened, shown, k) == packed_indices(scene, classification, n)
            &&& packed_vertices(opened, shown, k) == packed_vertices(scene, classification, n)
            &&& packed_materials(opened, shown, k) == packed_materials(scene, classification, n)
            &&& packed_strings(opened, shown, k) == packed_strings(scene, classification, n)
        }),
    decreases k,
{
    lemma_reach(scene, classification, cut, k);
    if k == 0 {
        lemma_nothing_in_between(scene, classification, 0, reach(scene, cut, 0));
    } else {
        let id = cut.instances@[k - 1].source as int;
        lemma_pools_again(scene, classification, cut, opened, shown, k - 1);
        lemma_reach(scene, classification, cut, k - 1);
        lemma_nothing_in_between(scene, classification, id + 1, reach(scene, cut, k));
        lemma_bringing_survives(scene, classification, cut, opened, shown, k - 1);
        lemma_geometry_is_packed(scene, classification, cut, opened, k - 1);
        lemma_texts_survive(scene, classification, cut, opened, k - 1);
        assert(material_brought(opened, shown, k - 1) == material_brought(scene, classification, id));
        assert(strings_before_name(opened, shown, k - 1) == strings_before_name(
            scene,
            classification,
            id,
        ));
    }
}

/// An instance of a published scene is kept as it was kept before.
proof fn lemma_kept_again(
    scene: &Scene,
    classification: &Classification,
    cut: &Subset,
    opened: &Scene,
    shown: &Classification,
    k: int,
)
    requires
        cut.cut_from(scene, classification),
        is_countable(cut),
        opens_as(scene, cut, opened),
        shows_all(opened, shown),
        0 <= k < cut.instances@.len(),
    ensures
        kept(opened, shown, k) == (Kept { source: k as usize, ..cut.instances@[k] }),
{
    let id = lemma_kept_of(scene, classification, scene.instances@.len() as int, k);
    lemma_bringing_survives(scene, classification, cut, opened, shown, k);
    lemma_texts_survive(scene, classification, cut, opened, k);
    lemma_pools_again(scene, classification, cut, opened, shown, k);
    assert(reach(scene, cut, k) == id);
    assert(strings_before_name(opened, shown, k).len() == strings_before_name(
        scene,
        classification,
        id,
    ).len());
    let g = geometry_from(opened, shown, k);
    lemma_geometry_source(opened, shown, k);
    lemma_bringing_survives(scene, classification, cut, opened, shown, g);
    lemma_sharing_survives(scene, classification, cut, opened, g, k);
    lemma_pools_again(scene, classification, cut, opened, shown, g);
    let from = cut.instances@[g].source as int;
    assert(brings_geometry(scene, classification, from));
    lemma_geometry_source(scene, classification, id);
    lemma_geometry_source(scene, classification, from);
    assert(geometry_from(scene, classification, id) == from);
    let m = material_from(opened, shown, k);
    lemma_material_source(opened, shown, k);
    lemma_bringing_survives(scene, classification, cut, opened, shown, m);
    lemma_sharing_survives(scene, classification, cut, opened, m, k);
    lemma_pools_again(scene, classification, cut, opened, shown, m);
    let maker = cut.instances@[m].source as int;
    assert(brings_material(scene, classification, maker));
    lemma_material_source(scene, classification, id);
    lemma_material_source(scene, classification, maker);
    assert(material_from(scene, classification, id) == maker);
}

/// All of a published scene is kept, as it was kept before.
proof fn lemma_instances_again(
    scene: &Scene,
    classification: &Classification,
    cut: &Subset,
    opened: &Scene,
    shown: &Classification,
    k: int,
)
    requires
        cut.cut_from(scene, classification),
        is_countable(cut),
        opens_as(scene, cut, opened),
        shows_all(opened, shown),
        0 <= k <= cut.instances@.len(),
    ensures
        packed_instances(opened, shown, k).len() == k,
        forall|j: int|
            0 <= j < k ==> (#[trigger] packed_instances(opened, shown, k)[j]) == (Kept {
                source: j as usize,
                ..cut.instances@[j]
            }),
    decreases k,
{
    if k > 0 {
        lemma_instances_again(scene, classification, cut, opened, shown, k - 1);
        lemma_bringing_survives(scene, classification, cut, opened, shown, k - 1);
        lemma_kept_again(scene, classification, cut, opened, shown, k - 1);
    }
}

/// The box of a published scene is the box that it was published with.
proof fn lemma_box_again(
    scene: &Scene,
    classification: &Classification,
    cut: &Subset,
    opened: &Scene,
    shown: &Classification,
    axis: int,
    k: int,
)
    requires
        cut.cut_from(scene, classification),
        is_countable(cut),
        opens_as(scene, cut, opened),
        shows_all(opened, shown),
        0 <= k <= cut.instances@.len(),
        0 <= axis < 3,
    ensures
        packed_min(opened, shown, axis, k) == packed_min(
            scene,
            classification,
            axis,
            reach(scene, cut, k),
        ),
        packed_max(opened, shown, axis, k) == packed_max(
            scene,
            classification,
            axis,
            reach(scene, cut, k),
        ),
    decreases k,
{
    lemma_reach(scene, classification, cut, k);
    if k == 0 {
        lemma_nothing_in_between(scene, classification, 0, reach(scene, cut, 0));
        assert(packed_min(scene, classification, axis, 0) == packed_min(opened, shown, axis, 0));
        assert(packed_max(scene, classification, axis, 0) == packed_max(opened, shown, axis, 0));
    } else {
        let id = cut.instances@[k - 1].source as int;
        lemma_box_again(scene, classification, cut, opened, shown, axis, k - 1);
        lemma_reach(scene, classification, cut, k - 1);
        lemma_nothing_in_between(scene, classification, id + 1, reach(scene, cut, k));
        lemma_bringing_survives(scene, classification, cut, opened, shown, k - 1);
        assert(is_instance_of(
            opened.instances@[k - 1],
            cut,
            cut.instances@[k - 1],
            scene.instances@[id],
        ));
        assert(packed_min(opened, shown, axis, k) == packed_min(scene, classification, axis, id + 1));
        assert(packed_max(opened, shown, axis, k) == packed_max(scene, classification, axis, id + 1));
    }
}

/// Publishing all of a published scene gives it again: the same instances, drawn
/// from the same places and counted from its own, the same materials, strings,
/// vertices and indices, and the same box.
pub proof fn law_publishing_twice_is_publishing_once(
    scene: &Scene,
    classification: &Classification,
    cut: &Subset,
    opened: &Scene,
    shown: &Classification,
    again: &Subset,
)
    requires
        cut.cut_from(scene, classification),
        is_countable(cut),
        opens_as(scene, cut, opened),
        shows_all(opened, shown),
        again.cut_from(opened, shown),
    ensures
        same_contents(cut, again),
        forall|k: int|
            0 <= k < cut.instances@.len() ==> (#[trigger] again.instances@[k]) == (Kept {
                source: k as usize,
                ..cut.instances@[k]
            }),
{
    let n = cut.instances@.len() as int;
    lemma_pools_again(scene, classification, cut, opened, shown, n);
    lemma_instances_again(scene, classification, cut, opened, shown, n);
    assert forall|axis: int| 0 <= axis < 3 implies (#[trigger] again.scene_min[axis])
        == cut.scene_min[axis] by {
        lemma_box_again(scene, classification, cut, opened, shown, axis, n);
    }
    assert forall|axis: int| 0 <= axis < 3 implies (#[trigger] again.scene_max[axis])
        == cut.scene_max[axis] by {
        lemma_box_again(scene, classification, cut, opened, shown, axis, n);
    }
    assert(again.scene_min@ =~= cut.scene_min@);
    assert(again.scene_max@ =~= cut.scene_max@);
}

/// What the file says of an instance: what the subset keeps but for where that
/// came from, and what the instance has that it was cut from.
pub type Written = (Kept, u32, [Single; 12], [Single; 3], [Single; 3]);

/// What the file of a subset says of its instance `k`.
pub open spec fn written(scene: &Scene, cut: &Subset, k: int) -> Written {
    let one = cut.instances@[k];
    let whole = scene.instances@[one.source as int];
    (
        Kept { source: 0, ..one },
        whole.index_count,
        whole.transform,
        whole.aabb_min,
        whole.aabb_max,
    )
}

/// The records of the first `n` instances, one after the other.
pub open spec fn instance_records(
    scene: &Scene,
    cut: &Subset,
    encode: spec_fn(Written) -> Seq<u8>,
    n: int,
) -> Seq<u8>
    decreases n,
{
    if n <= 0 {
        Seq::empty()
    } else {
        instance_records(scene, cut, encode, n - 1) + encode(written(scene, cut, n - 1))
    }
}

/// The records of some materials, one after the other.
pub open spec fn material_records(
    materials: Seq<PackedMaterial>,
    encode: spec_fn(PackedMaterial) -> Seq<u8>,
) -> Seq<u8>
    decreases materials.len(),
{
    if materials.len() == 0 {
        Seq::empty()
    } else {
        material_records(materials.drop_last(), encode) + encode(materials.last())
    }
}

/// Publishing again writes the records that were written before.
proof fn lemma_records_again(
    scene: &Scene,
    cut: &Subset,
    opened: &Scene,
    again: &Subset,
    encode: spec_fn(Written) -> Seq<u8>,
    n: int,
)
    requires
        opens_as(scene, cut, opened),
        0 <= n <= cut.instances@.len(),
        forall|k: int|
            0 <= k < cut.instances@.len() ==> (#[trigger] again.instances@[k]) == (Kept {
                source: k as usize,
                ..cut.instances@[k]
            }),
    ensures
        instance_records(opened, again, encode, n) == instance_records(scene, cut, encode, n),
    decreases n,
{
    if n > 0 {
        lemma_records_again(scene, cut, opened, again, encode, n - 1);
        assert(cut.instances.len() == cut.instances@.len());
        let one = again.instances@[n - 1];
        assert(one.source == n - 1);
        assert(is_instance_of(
            opened.instances@[n - 1],
            cut,
            cut.instances@[n - 1],
            scene.instances@[cut.instances@[n - 1].source as int],
        ));
        assert(written(opened, again, n - 1) == written(scene, cut, n - 1));
    }
}

/// Publishing all of a published scene repacks nothing further: the file holds
/// as many instances, vertices, indices and bytes as the one that was opened,
/// and on a machine of the same kind it is that file, byte for byte. However the
/// format's records are encoded, this holds.
pub proof fn law_publishing_twice_gives_the_same_file(
    scene: &Scene,
    classification: &Classification,
    cut: &Subset,
    opened: &Scene,
    shown: &Classification,
    again: &Subset,
    plan: Plan,
    other_plan: Plan,
    alignment: int,
    header: Header,
    other_header: Header,
    encode_header: spec_fn(Header) -> Seq<u8>,
    encode_instance: spec_fn(Written) -> Seq<u8>,
    encode_material: spec_fn(PackedMaterial) -> Seq<u8>,
    first: Seq<u8>,
    second: Seq<u8>,
    little: bool,
    other: bool,
)
    requires
        cut.cut_from(scene, classification),
        is_countable(cut),
        opens_as(scene, cut, opened),
        shows_all(opened, shown),
        again.cut_from(opened, shown),
        alignment > 0,
        plan.packed(alignment),
        other_plan.packed(alignment),
        plan.header.len == other_plan.header.len,
        fits(cut, &plan),
        fits(again, &other_plan),
        says(header, cut, &plan, scene.bake_hash),
        says(other_header, again, &other_plan, opened.bake_hash),
        is_file_in(
            first,
            cut,
            &plan,
            encode_header(header),
            instance_records(scene, cut, encode_instance, cut.instances@.len() as int),
            material_records(cut.materials@, encode_material),
            little,
        ),
        is_file_in(
            second,
            again,
            &other_plan,
            encode_header(other_header),
            instance_records(opened, again, encode_instance, again.instances@.len() as int),
            material_records(again.materials@, encode_material),
            other,
        ),
    ensures
        again.instances@.len() == opened.instances@.len(),
        again.vertices@.len() == opened.vertices@.len(),
        again.indices@.len() == opened.indices@.len(),
        second.len() == first.len(),
        little == other ==> second == first,
{
    law_publishing_twice_is_publishing_once(scene, classification, cut, opened, shown, again);
    lemma_records_again(
        scene,
        cut,
        opened,
        again,
        encode_instance,
        cut.instances@.len() as int,
    );
    law_sections_are_apart(plan, alignment);
    law_sections_are_apart(other_plan, alignment);
    let instances = instance_records(scene, cut, encode_instance, cut.instances@.len() as int);
    let materials = material_records(cut.materials@, encode_material);
    assert(instances.len() == plan.instances.len && instances.len() == other_plan.instances.len);
    assert(materials.len() == plan.materials.len && materials.len() == other_plan.materials.len);
    law_equal_subsets_have_equal_headers(
        cut,
        again,
        plan,
        other_plan,
        alignment,
        scene.bake_hash,
        header,
        other_header,
    );
    law_equal_subsets_make_equal_files(
        cut,
        again,
        &plan,
        alignment,
        encode_header(header),
        instances,
        materials,
        first,
        second,
        little,
        other,
    );
}

} // verus!
