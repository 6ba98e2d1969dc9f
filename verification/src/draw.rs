//! What is drawn, and how a drawn frame is read back.
//!
//! The whole map is one vertex buffer and one index buffer. An instance is a
//! slice of the index buffer plus a transform, and the shader reads its record
//! out of a buffer by the instance's number. Nothing is uploaded per instance
//! per frame and no vertex data is duplicated between placements.
//!
//! Two passes. The solid pass fills colour and depth. The ghost pass then draws
//! everything that is *not* the subject as a shell, depth-tested against what
//! the solid pass already wrote, so the plant reads in front of the building
//! rather than through it.
//!
//! Changing what is visible costs a rebuild of two lists and one upload of the
//! records.
use crate::category::{drawable_tally, drawn_instances, drawn_triangles, triangle_tally, Classification, Mode, COUNT};
use crate::scene::{Instance, Scene};
use crate::single::{Single, ONE, ZERO};
use vstd::prelude::*;

verus! {

/// The per-instance record that the shader reads: a 3x4 row-major matrix and a
/// colour.
#[derive(Debug, Clone, Copy)]
pub struct Record {
    pub rows: [[Single; 4]; 3],
    pub colour: [Single; 4],
}

/// One drawable slice of the shared index buffer.
#[derive(Debug, Clone, Copy, PartialEq, Eq, Structural)]
pub struct Draw {
    pub first_index: u32,
    pub index_count: u32,
    pub base_vertex: i32,
    pub instance: u32,
}

/// What is on screen right now, for the panel and the title bar.
#[derive(Debug, Clone, Copy, PartialEq, Eq, Structural)]
pub struct DrawStats {
    /// Instances in the solid pass.
    pub solid: usize,
    /// Instances in the ghost pass.
    pub ghosted: usize,
    /// Triangles across both passes.
    pub triangles: u64,
}

/// Everything that is drawn, as far as it follows from the classification.
pub struct DrawLists {
    /// Every instance's transform and colour, kept so that a colour change is
    /// one upload rather than a rebuild.
    pub records: Vec<Record>,
    pub solid_draws: Vec<Draw>,
    pub ghost_draws: Vec<Draw>,
    pub stats: DrawStats,
}

/// An instance is drawn when it has indices and is not hidden.
pub open spec fn is_drawn(scene: &Scene, classification: &Classification, id: int) -> bool {
    &&& 0 <= id < scene.instances@.len()
    &&& scene.instances@[id].index_count != 0
    &&& classification.mode_at(id) != Mode::Hidden
}

/// How an instance is drawn.
pub open spec fn draw_of(scene: &Scene, id: int) -> Draw {
    let instance = scene.instances@[id];
    Draw {
        first_index: instance.first_index,
        index_count: instance.index_count,
        base_vertex: instance.base_vertex as i32,
        instance: id as u32,
    }
}

/// The draws of the first `n` instances that are drawn in this mode.
pub open spec fn draws(scene: &Scene, classification: &Classification, mode: Mode, n: int) -> Seq<Draw>
    decreases n,
{
    if n <= 0 {
        Seq::empty()
    } else if is_drawn(scene, classification, n - 1) && classification.mode_at(n - 1) == mode {
        draws(scene, classification, mode, n - 1).push(draw_of(scene, n - 1))
    } else {
        draws(scene, classification, mode, n - 1)
    }
}

/// The triangles of the first `n` instances that are drawn.
pub open spec fn triangles_drawn(scene: &Scene, classification: &Classification, n: int) -> nat
    decreases n,
{
    if n <= 0 {
        0
    } else if is_drawn(scene, classification, n - 1) {
        triangles_drawn(scene, classification, n - 1) + (scene.instances@[n - 1].index_count
            / 3) as nat
    } else {
        triangles_drawn(scene, classification, n - 1)
    }
}

/// The colour that something else than its category gives an instance.
pub open spec fn override_of(overrides: Seq<Option<[Single; 3]>>, id: int) -> Option<[Single; 3]> {
    if 0 <= id < overrides.len() {
        overrides[id]
    } else {
        None
    }
}

/// The colour that an instance is drawn in.
pub open spec fn colour_of(
    classification: &Classification,
    overrides: Seq<Option<[Single; 3]>>,
    id: int,
) -> [Single; 3] {
    match override_of(overrides, id) {
        Some(colour) => colour,
        None => classification.categories@[classification.slot_of(id)].colour,
    }
}

/// A record shows a colour, fully opaque.
pub open spec fn shows(record: Record, colour: [Single; 3]) -> bool {
    &&& record.colour[0] == colour[0]
    &&& record.colour[1] == colour[1]
    &&& record.colour[2] == colour[2]
    &&& record.colour[3].bits == ONE
}

/// A record places an instance as the scene does.
pub open spec fn places(record: Record, instance: Instance) -> bool {
    forall|row: int, column: int|
        0 <= row < 3 && 0 <= column < 4 ==> #[trigger] record.rows[row][column]
            == instance.transform[4 * row + column]
}

/// The record of every instance, in a colour that is easy to notice when
/// nothing has given it another.
#[must_use]
pub fn build_records(scene: &Scene) -> (r: Vec<Record>)
    ensures
        r@.len() == scene.instances@.len(),
        forall|id: int| 0 <= id < r@.len() ==> {
            &&& places(#[trigger] r@[id], scene.instances@[id])
            &&& r@[id].colour[0].bits == ONE
            &&& r@[id].colour[1].bits == ZERO
            &&& r@[id].colour[2].bits == ONE
            &&& r@[id].colour[3].bits == ONE
        },
{
    let mut records: Vec<Record> = Vec::new();
    let mut id: usize = 0;
    while id < scene.instances.len()
        invariant
            id <= scene.instances@.len(),
            records@.len() == id,
            forall|j: int| 0 <= j < id ==> {
                &&& places(#[trigger] records@[j], scene.instances@[j])
                &&& records@[j].colour[0].bits == ONE
                &&& records@[j].colour[1].bits == ZERO
                &&& records@[j].colour[2].bits == ONE
                &&& records@[j].colour[3].bits == ONE
            },
        decreases scene.instances@.len() - id,
    {
        let t: [Single; 12] = scene.instances[id].transform;
        let record: Record = Record {
            rows: [[t[0], t[1], t[2], t[3]], [t[4], t[5], t[6], t[7]], [t[8], t[9], t[10], t[11]]],
            colour: [
                Single { bits: ONE },
                Single { bits: ZERO },
                Single { bits: ONE },
                Single { bits: ONE },
            ],
        };
        assert(places(record, scene.instances@[id as int]));
        records.push(record);
        id += 1;
    }
    records
}

impl DrawLists {
    /// Nothing drawn yet.
    #[must_use]
    pub fn new(scene: &Scene) -> (r: Self)
        ensures
            r.records@.len() == scene.instances@.len(),
            forall|id: int| 0 <= id < r.records@.len() ==> {
                &&& places(#[trigger] r.records@[id], scene.instances@[id])
                &&& r.records@[id].colour[0].bits == ONE
                &&& r.records@[id].colour[1].bits == ZERO
                &&& r.records@[id].colour[2].bits == ONE
                &&& r.records@[id].colour[3].bits == ONE
            },
            r.solid_draws@.len() == 0,
            r.ghost_draws@.len() == 0,
            r.stats == (DrawStats { solid: 0, ghosted: 0, triangles: 0 }),
    {
        DrawLists {
            records: build_records(scene),
            solid_draws: Vec::new(),
            ghost_draws: Vec::new(),
            stats: DrawStats { solid: 0, ghosted: 0, triangles: 0 },
        }
    }

    /// Rebuild the lists and the colours from the current classification. Call
    /// after any change to a category's mode or colour.
    ///
    /// `overrides` paints specific instances another colour than their category.
    pub fn apply(
        &mut self,
        scene: &Scene,
        classification: &Classification,
        overrides: &Vec<Option<[Single; 3]>>,
    )
        requires
            scene.wf(),
            classification.categories@.len() > 0,
            old(self).records@.len() == scene.instances@.len(),
        ensures
            final(self).solid_draws@ == draws(
                scene,
                classification,
                Mode::Solid,
                scene.instances@.len() as int,
            ),
            final(self).ghost_draws@ == draws(
                scene,
                classification,
                Mode::Ghosted,
                scene.instances@.len() as int,
            ),
            final(self).stats.solid == final(self).solid_draws@.len(),
            final(self).stats.ghosted == final(self).ghost_draws@.len(),
            final(self).stats.triangles == triangles_drawn(
                scene,
                classification,
                scene.instances@.len() as int,
            ),
            final(self).records@.len() == old(self).records@.len(),
            forall|id: int| 0 <= id < final(self).records@.len() ==> {
                &&& (#[trigger] final(self).records@[id]).rows == old(self).records@[id].rows
                &&& is_drawn(scene, classification, id) ==> shows(
                    final(self).records@[id],
                    colour_of(classification, overrides@, id),
                )
                &&& !is_drawn(scene, classification, id) ==> final(self).records@[id]
                    == old(self).records@[id]
            },
    {
        self.solid_draws = Vec::new();
        self.ghost_draws = Vec::new();
        let mut triangles: u64 = 0;
        let mut id: usize = 0;
        while id < scene.instances.len()
            invariant
                scene.wf(),
                classification.categories@.len() > 0,
                id <= scene.instances@.len(),
                self.records@.len() == scene.instances@.len(),
                old(self).records@.len() == scene.instances@.len(),
                self.solid_draws@ == draws(scene, classification, Mode::Solid, id as int),
                self.ghost_draws@ == draws(scene, classification, Mode::Ghosted, id as int),
                triangles == triangles_drawn(scene, classification, id as int),
                triangles <= id * 0x5555_5555,
                forall|j: int| 0 <= j < id ==> {
                    &&& (#[trigger] self.records@[j]).rows == old(self).records@[j].rows
                    &&& is_drawn(scene, classification, j) ==> shows(
                        self.records@[j],
                        colour_of(classification, overrides@, j),
                    )
                    &&& !is_drawn(scene, classification, j) ==> self.records@[j]
                        == old(self).records@[j]
                },
                forall|j: int|
                    id <= j < self.records@.len() ==> (#[trigger] self.records@[j])
                        == old(self).records@[j],
            decreases scene.instances@.len() - id,
        {
            let instance: &Instance = &scene.instances[id];
            let mode: Mode = classification.category_of(id).mode;
            if instance.index_count != 0 && mode != Mode::Hidden {
                let painted: Option<[Single; 3]> = if id < overrides.len() {
                    overrides[id]
                } else {
                    None
                };
                let colour: [Single; 3] = match painted {
                    Some(colour) => colour,
                    None => classification.category_of(id).colour,
                };
                let rows: [[Single; 4]; 3] = self.records[id].rows;
                self.records.set(
                    id,
                    Record {
                        rows,
                        colour: [colour[0], colour[1], colour[2], Single { bits: ONE }],
                    },
                );
                let draw: Draw = Draw {
                    first_index: instance.first_index,
                    index_count: instance.index_count,
                    base_vertex: instance.base_vertex as i32,
                    instance: id as u32,
                };
                triangles = triangles + (instance.index_count / 3) as u64;
                if mode == Mode::Solid {
                    self.solid_draws.push(draw);
                } else {
                    self.ghost_draws.push(draw);
                }
            }
            id += 1;
        }
        self.stats = DrawStats {
            solid: self.solid_draws.len(),
            ghosted: self.ghost_draws.len(),
            triangles,
        };
    }
}

/// Every instance that is drawn is drawn once, in the pass that its mode asks
/// for, and nothing else is drawn.
pub proof fn law_drawn_once(
    scene: &Scene,
    classification: &Classification,
    mode: Mode,
    n: int,
)
    requires
        scene.wf(),
        0 <= n <= scene.instances@.len(),
    ensures
        forall|k: int| 0 <= k < draws(scene, classification, mode, n).len() ==> {
            let draw = #[trigger] draws(scene, classification, mode, n)[k];
            &&& draw.instance < n
            &&& is_drawn(scene, classification, draw.instance as int)
            &&& classification.mode_at(draw.instance as int) == mode
            &&& draw == draw_of(scene, draw.instance as int)
        },
        forall|j: int, k: int|
            0 <= j < k < draws(scene, classification, mode, n).len() ==> (#[trigger] draws(
                scene,
                classification,
                mode,
                n,
            )[j]).instance < (#[trigger] draws(scene, classification, mode, n)[k]).instance,
        forall|id: int|
            0 <= id < n && #[trigger] is_drawn(scene, classification, id) && classification.mode_at(id)
                == mode ==> draws(scene, classification, mode, n).contains(draw_of(scene, id)),
    decreases n,
{
    if n > 0 {
        law_drawn_once(scene, classification, mode, n - 1);
        let before = draws(scene, classification, mode, n - 1);
        let after = draws(scene, classification, mode, n);
        assert forall|id: int|
            0 <= id < n && #[trigger] is_drawn(scene, classification, id) && classification.mode_at(id)
                == mode implies after.contains(draw_of(scene, id)) by {
            if id == n - 1 {
                assert(after[after.len() - 1] == draw_of(scene, id));
            } else {
                assert(before.contains(draw_of(scene, id)));
                let k = choose|k: int| 0 <= k < before.len() && before[k] == draw_of(scene, id);
                assert(after[k] == draw_of(scene, id));
            }
        }
    }
}

/// The instances with anything to draw, and their triangles, that land in the
/// first `n` categories that are not hidden.
spec fn visible_landed(
    scene: &Scene,
    classification: &Classification,
    assigned: Seq<u8>,
    n: int,
) -> (nat, nat)
    decreases n,
{
    if n <= 0 {
        (0, 0)
    } else {
        let before = visible_landed(scene, classification, assigned, n - 1);
        if classification.categories@[n - 1].mode != Mode::Hidden {
            (
                before.0 + drawable_tally(scene.instances@, assigned, n - 1),
                before.1 + triangle_tally(scene.instances@, assigned, n - 1),
            )
        } else {
            before
        }
    }
}

proof fn lemma_visible_step(
    scene: &Scene,
    classification: &Classification,
    assigned: Seq<u8>,
    n: int,
)
    requires
        assigned.len() > 0,
        0 <= n,
    ensures
        ({
            let before = visible_landed(scene, classification, assigned.drop_last(), n);
            let count = scene.instances@[assigned.len() - 1].index_count;
            visible_landed(scene, classification, assigned, n) == if assigned.last() < n
                && classification.categories@[assigned.last() as int].mode != Mode::Hidden {
                (
                    before.0 + if count != 0 {
                        1nat
                    } else {
                        0nat
                    },
                    before.1 + (count / 3) as nat,
                )
            } else {
                before
            }
        }),
    decreases n,
{
    if n > 0 {
        lemma_visible_step(scene, classification, assigned, n - 1);
    }
}

proof fn lemma_visible_empty(scene: &Scene, classification: &Classification, n: int)
    ensures
        visible_landed(scene, classification, Seq::empty(), n) == (0nat, 0nat),
    decreases n,
{
    if n > 0 {
        lemma_visible_empty(scene, classification, n - 1);
    }
}

proof fn lemma_drawn_is_landed(scene: &Scene, classification: &Classification, n: int)
    requires
        classification.counts(scene),
        0 <= n <= scene.instances@.len(),
    ensures
        ({
            let seen = visible_landed(
                scene,
                classification,
                classification.of_instance@.take(n),
                COUNT as int,
            );
            &&& draws(scene, classification, Mode::Solid, n).len() + draws(
                scene,
                classification,
                Mode::Ghosted,
                n,
            ).len() == seen.0
            &&& triangles_drawn(scene, classification, n) == seen.1
        }),
    decreases n,
{
    let assigned = classification.of_instance@.take(n);
    if n > 0 {
        lemma_drawn_is_landed(scene, classification, n - 1);
        assert(assigned.drop_last() =~= classification.of_instance@.take(n - 1));
        assert(assigned.last() == classification.of_instance@[n - 1]);
        lemma_visible_step(scene, classification, assigned, COUNT as int);
    } else {
        assert(assigned =~= Seq::empty());
        lemma_visible_empty(scene, classification, COUNT as int);
    }
}

proof fn lemma_landed_is_counted(scene: &Scene, classification: &Classification, n: int)
    requires
        classification.counts(scene),
        0 <= n <= COUNT,
    ensures
        visible_landed(scene, classification, classification.of_instance@, n) == (
            drawn_instances(classification.categories@.take(n)),
            drawn_triangles(classification.categories@.take(n)),
        ),
    decreases n,
{
    if n > 0 {
        lemma_landed_is_counted(scene, classification, n - 1);
        assert(classification.categories@.take(n).drop_last() =~= classification.categories@.take(n - 1));
        assert(classification.categories@.take(n).last() == classification.categories@[n - 1]);
    }
}

/// What the categories on show count is what is drawn: as many instances as
/// there are draws in the two passes, and their triangles.
pub proof fn law_the_panel_and_the_renderer_agree(scene: &Scene, classification: &Classification)
    requires
        classification.counts(scene),
    ensures
        ({
            let n = scene.instances@.len() as int;
            &&& drawn_instances(classification.categories@) == draws(
                scene,
                classification,
                Mode::Solid,
                n,
            ).len() + draws(scene, classification, Mode::Ghosted, n).len()
            &&& drawn_triangles(classification.categories@) == triangles_drawn(scene, classification, n)
        }),
{
    let n = scene.instances@.len() as int;
    lemma_drawn_is_landed(scene, classification, n);
    assert(classification.of_instance@.take(n) =~= classification.of_instance@);
    lemma_landed_is_counted(scene, classification, COUNT as int);
    assert(classification.categories@.take(COUNT as int) =~= classification.categories@);
}

/// Every draw carries the range of the instance that it is for, whole: its
/// first index, how many there are, and the base vertex, bit for bit. The
/// instance has something to draw, and its category has the mode of the pass.
pub proof fn law_a_draw_carries_the_range_of_its_instance(
    scene: &Scene,
    classification: &Classification,
    mode: Mode,
    n: int,
    k: int,
)
    requires
        scene.wf(),
        classification.of_instance@.len() == scene.instances@.len(),
        forall|id: int|
            0 <= id < classification.of_instance@.len() ==> (#[trigger] classification.of_instance@[id])
                < classification.categories@.len(),
        0 <= n <= scene.instances@.len(),
        0 <= k < draws(scene, classification, mode, n).len(),
    ensures
        ({
            let draw = draws(scene, classification, mode, n)[k];
            let instance = scene.instances@[draw.instance as int];
            let category = classification.of_instance@[draw.instance as int];
            &&& draw.instance < n
            &&& draw.first_index == instance.first_index
            &&& draw.index_count == instance.index_count
            &&& draw.base_vertex as u32 == instance.base_vertex
            &&& instance.index_count > 0
            &&& classification.categories@[category as int].mode == mode
            &&& mode != Mode::Hidden
        }),
    decreases n,
{
    if n > 0 && k < draws(scene, classification, mode, n - 1).len() {
        law_a_draw_carries_the_range_of_its_instance(scene, classification, mode, n - 1, k);
    } else if n > 0 {
        let instance = scene.instances@[n - 1];
        lemma_base_vertex_survives(instance.base_vertex);
        assert(classification.of_instance@[n - 1] < classification.categories@.len());
    }
}

/// A base vertex that is taken for a signed number and back is what it was.
proof fn lemma_base_vertex_survives(base: u32)
    ensures
        (base as i32) as u32 == base,
{
    assert((base as i32) as u32 == base) by (bit_vector);
}

/// Every instance that has something to draw, in a category that is not hidden,
/// is drawn exactly once, in the pass of its category's mode, and in no other.
pub proof fn law_everything_on_show_is_drawn_once(
    scene: &Scene,
    classification: &Classification,
    id: int,
)
    requires
        scene.wf(),
        classification.of_instance@.len() == scene.instances@.len(),
        forall|j: int|
            0 <= j < classification.of_instance@.len() ==> (#[trigger] classification.of_instance@[j])
                < classification.categories@.len(),
        0 <= id < scene.instances@.len(),
        scene.instances@[id].index_count > 0,
    ensures
        ({
            let n = scene.instances@.len() as int;
            let mode = classification.categories@[classification.of_instance@[id] as int].mode;
            let solid = draws(scene, classification, Mode::Solid, n);
            let ghosts = draws(scene, classification, Mode::Ghosted, n);
            &&& (exists|k: int| 0 <= k < solid.len() && (#[trigger] solid[k]).instance == id) <==> mode
                == Mode::Solid
            &&& (exists|k: int| 0 <= k < ghosts.len() && (#[trigger] ghosts[k]).instance == id) <==> mode
                == Mode::Ghosted
            &&& forall|j: int, k: int|
                0 <= j < k < solid.len() ==> (#[trigger] solid[j]).instance < (#[trigger] solid[k]).instance
            &&& forall|j: int, k: int|
                0 <= j < k < ghosts.len() ==> (#[trigger] ghosts[j]).instance < (
                #[trigger] ghosts[k]).instance
        }),
{
    let n = scene.instances@.len() as int;
    assert(classification.of_instance@[id] < classification.categories@.len());
    let mode = classification.categories@[classification.of_instance@[id] as int].mode;
    assert(classification.mode_at(id) == mode);
    law_drawn_once(scene, classification, Mode::Solid, n);
    law_drawn_once(scene, classification, Mode::Ghosted, n);
    let solid = draws(scene, classification, Mode::Solid, n);
    let ghosts = draws(scene, classification, Mode::Ghosted, n);
    if mode == Mode::Solid {
        assert(is_drawn(scene, classification, id));
        let k = choose|k: int| 0 <= k < solid.len() && solid[k] == draw_of(scene, id);
        assert(solid[k].instance == id);
    }
    if mode == Mode::Ghosted {
        assert(is_drawn(scene, classification, id));
        let k = choose|k: int| 0 <= k < ghosts.len() && ghosts[k] == draw_of(scene, id);
        assert(ghosts[k].instance == id);
    }
}

/// The triangles that are counted are those of the draws: a third of the indices
/// of each, rounded down.
pub proof fn law_triangles_are_counted_by_draw(scene: &Scene, classification: &Classification, n: int)
    requires
        0 <= n <= scene.instances@.len(),
    ensures
        triangles_drawn(scene, classification, n) == draws(scene, classification, Mode::Solid, n).fold_left(
            0int,
            |sum: int, draw: Draw| sum + draw.index_count / 3,
        ) + draws(scene, classification, Mode::Ghosted, n).fold_left(
            0int,
            |sum: int, draw: Draw| sum + draw.index_count / 3,
        ),
    decreases n,
{
    if n > 0 {
        law_triangles_are_counted_by_draw(scene, classification, n - 1);
        let draw = draw_of(scene, n - 1);
        let solid = draws(scene, classification, Mode::Solid, n - 1);
        let ghosts = draws(scene, classification, Mode::Ghosted, n - 1);
        assert(solid.push(draw).drop_last() =~= solid);
        assert(ghosts.push(draw).drop_last() =~= ghosts);
    }
}

/// What is drawn shows the colour that it was painted, or else that of its
/// category, and is opaque.
pub proof fn law_colours(
    classification: &Classification,
    overrides: Seq<Option<[Single; 3]>>,
    id: int,
    record: Record,
    c: int,
)
    requires
        0 <= id < classification.of_instance@.len(),
        classification.of_instance@[id] < classification.categories@.len(),
        shows(record, colour_of(classification, overrides, id)),
        0 <= c < 3,
    ensures
        id < overrides.len() && overrides[id] is Some ==> record.colour[c] == overrides[id]->0[c],
        id >= overrides.len() || overrides[id] is None ==> record.colour[c]
            == classification.categories@[classification.of_instance@[id] as int].colour[c],
        record.colour[3].bits == 0x3F80_0000,
{
}

/// A record holds the three rows of the transform, four numbers each, in order.
pub proof fn law_records_hold_the_transform(record: Record, instance: Instance, at: int)
    requires
        places(record, instance),
        0 <= at < 12,
    ensures
        record.rows[at / 4][at % 4] == instance.transform[at],
{
}

} // verus!
