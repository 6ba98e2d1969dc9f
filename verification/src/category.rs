//! What each instance *is*, and how it should be drawn.
//!
//! Classification runs once at load: every instance is matched against an
//! ordered list of patterns and assigned exactly one category. The match is
//! against the material path first, because that names the source art kit
//! exactly — `.../hr_nuke/metal_pipe_001/metal_pipe_001.vmat` is unambiguous in
//! a way that a model stem baked out of an aggregate is not.
//!
//! Categories are ordered most specific first, and the first hit wins. That is
//! why `nuke_reactor_vessel_head` lands in `vessel` rather than being caught by
//! something broader further down.
//!
//! Everything about *display* — the colour and whether a category is solid,
//! ghosted or hidden — is mutable at runtime.
use crate::pattern::{
    compile, compiles, decide, finders, found_in, is_choice, is_claimed, law_the_material_decides_first, made_of,
    BadPattern,
};
use crate::scene::{Instance, Scene};
use crate::single::{law_numbers_are_ordered_by_value, value, Single, INFINITY, NEG_INFINITY};
use crate::text::same_text;
use regex::Regex;
use vstd::prelude::*;

verus! {

/// How a category is drawn.
#[derive(Debug, Clone, Copy, PartialEq, Eq, Structural)]
pub enum Mode {
    /// Opaque, lit, in the category colour.
    Solid,
    /// A fresnel shell: edges only, additive, no depth write. Keeps the shape
    /// of the building readable without hiding the plant inside it.
    Ghosted,
    /// Not drawn at all.
    Hidden,
}

impl Mode {
    /// What comes after a mode in the cycle.
    pub open spec fn successor(self) -> Mode {
        match self {
            Mode::Solid => Mode::Ghosted,
            Mode::Ghosted => Mode::Hidden,
            Mode::Hidden => Mode::Solid,
        }
    }

    /// The letter that stands for a mode.
    pub open spec fn letter(self) -> char {
        match self {
            Mode::Solid => 'S',
            Mode::Ghosted => 'G',
            Mode::Hidden => 'H',
        }
    }

    /// Cycle order for a click or a key press.
    #[must_use]
    pub fn next(self) -> (r: Self)
        ensures
            r == self.successor(),
    {
        match self {
            Mode::Solid => Mode::Ghosted,
            Mode::Ghosted => Mode::Hidden,
            Mode::Hidden => Mode::Solid,
        }
    }

    /// Single-letter tag for the panel and the console.
    #[must_use]
    pub fn tag(self) -> (r: &'static str)
        ensures
            r@.len() == 1,
            r@ == seq![self.letter()],
    {
        proof {
            reveal_strlit("S");
            reveal_strlit("G");
            reveal_strlit("H");
        }
        match self {
            Mode::Solid => "S",
            Mode::Ghosted => "G",
            Mode::Hidden => "H",
        }
    }
}

/// The cycle comes back to where it started after three steps, and not before.
pub proof fn law_modes_cycle(mode: Mode)
    ensures
        mode.successor().successor().successor() == mode,
        mode.successor() != mode,
        mode.successor().successor() != mode,
{
}

/// A tag tells which mode it stands for.
pub proof fn law_tags_differ(a: Mode, b: Mode)
    requires
        a != b,
    ensures
        a.letter() != b.letter(),
        seq![a.letter()] != seq![b.letter()],
{
    assert(seq![a.letter()][0] == a.letter());
    assert(seq![b.letter()][0] == b.letter());
}

/// How many categories there are, the unclassified one included.
pub const COUNT: usize = 12;

/// How many categories have a pattern. The last category has none: it takes
/// whatever no pattern claimed.
pub const PATTERNED: usize = 11;

/// Id, label and pattern of each category, most specific first.
///
/// `nuke_machinery_*` are pressure vessels, a skid and an electric motor, not
/// instruments, so they have a category of their own. `gas_meter` is
/// deliberately absent from the instruments: it is a domestic diaphragm gas
/// meter, not plant instrumentation. Its pipework still classifies as pipe
/// through `gas_meter_pipes`.
pub const DEFS: [[&'static str; 3]; 12] = [
    ["pipe", "Pipework", "metal_pipe_00|gas_meter_pipes"],
    [
        "duct",
        "HVAC ducting",
        "airduct_hvac|nuke_ventilation_exhaust|nuke_vent_slats|nuke_vent_bombsite|hr_metal_duct",
    ],
    [
        "vessel",
        "Vessels & tanks",
        "nuke_reactor_vessel_head|nuke_spent_fuel_racks|nuke_silo|medium_silo",
    ],
    ["machinery", "Machinery", "nuke_machinery"],
    [
        "instrument",
        "Instrumentation",
        "control_room_displays|nuke_electric_panel|nuke_office_desk_monitor",
    ],
    [
        "electrical",
        "Electrical",
        "current_transformer|nuke_circuit_breaker|substation_support|transformer_wires|nuke_power_pole|power_outlet",
    ],
    ["cabling", "Cable runs", "wires_00"],
    [
        "access",
        "Access steel",
        "metal_ladder|metal_railing|catwalk_support|web_joist|hazard_stripe",
    ],
    [
        "lighting",
        "Lighting",
        "nuke_light_fixture|nuke_fluorescent|nuke_twin_spot|nuke_bell_light",
    ],
    [
        "structure",
        "Building fabric",
        "^materials/(concrete|metal|ground|ceiling|plaster|tile|brick|wood|glass|dev)/|hr_concrete|hr_metal_corrugated|metal_door|window_00|curbs_001|hr_plaster|roof_",
    ],
    [
        "clutter",
        "Clutter & props",
        "chainlink_fence|foliage|beech|nuke_office_|nuke_cars|nuke_clothes|nuke_hard_hat|nuke_recycle_bin|nuke_chair|nuke_locker|nuke_sink|nuke_overall|metal_crate|swat_van|forklift|fire_extinguisher|signs_00|hr_area_signs|nuke_bombsite|vending",
    ],
    ["other", "Unclassified", ""],
];

/// Linear RGB of each category, as the bits of each channel.
///
/// Chosen to stay distinct against the dark ground and against each other, with
/// the process categories warm and the supporting ones cool, so a glance
/// separates "plant" from "everything that holds the plant up".
pub const COLOURS: [[u32; 3]; 12] = [
    [0x3F80_0000, 0x3EAE_147B, 0x3DCC_CCCD], // pipe: 1.00, 0.34, 0.10
    [0x3E99_999A, 0x3F14_7AE1, 0x3F80_0000], // duct: 0.30, 0.58, 1.00
    [0x3E4C_CCCD, 0x3F66_6666, 0x3F0C_CCCD], // vessel: 0.20, 0.90, 0.55
    [0x3E80_0000, 0x3F59_999A, 0x3F6B_851F], // machinery: 0.25, 0.85, 0.92
    [0x3F47_AE14, 0x3EE6_6666, 0x3F80_0000], // instrument: 0.78, 0.45, 1.00
    [0x3F80_0000, 0x3F51_EB85, 0x3E4C_CCCD], // electrical: 1.00, 0.82, 0.20
    [0x3F59_999A, 0x3F19_999A, 0x3E99_999A], // cabling: 0.85, 0.60, 0.30
    [0x3F0C_CCCD, 0x3F1E_B852, 0x3F38_51EC], // access: 0.55, 0.62, 0.72
    [0x3F73_3333, 0x3F66_6666, 0x3F33_3333], // lighting: 0.95, 0.90, 0.70
    [0x3F00_0000, 0x3F0F_5C29, 0x3F28_F5C3], // structure: 0.50, 0.56, 0.66
    [0x3ECC_CCCD, 0x3ED7_0A3D, 0x3EF5_C28F], // clutter: 0.40, 0.42, 0.48
    [0x3EE6_6666, 0x3EF5_C28F, 0x3F0C_CCCD], // other: 0.45, 0.48, 0.55
];

/// How each category starts out.
pub const MODES: [Mode; 12] = [
    Mode::Solid, // pipe
    Mode::Solid, // duct
    Mode::Solid, // vessel
    Mode::Solid, // machinery
    Mode::Solid, // instrument
    Mode::Solid, // electrical
    Mode::Hidden, // cabling
    Mode::Ghosted, // access
    Mode::Hidden, // lighting
    Mode::Ghosted, // structure
    Mode::Hidden, // clutter
    Mode::Ghosted, // other
];

/// One classified group of geometry.
#[derive(Debug, Clone)]
pub struct Category {
    /// Short lowercase id, also the `--solo` and `--keep` shorthand.
    pub id: &'static str,
    /// Name shown in the panel.
    pub label: &'static str,
    /// Linear RGB the category draws in.
    pub colour: [Single; 3],
    /// How it is drawn right now.
    pub mode: Mode,
    /// How many instances landed here.
    pub instances: u32,
    /// How many of them have anything to draw.
    pub drawable: u32,
    /// How many triangles those instances draw.
    pub triangles: u64,
}

impl Category {
    /// Carries the id, label, colour and mode that the table gives category `k`.
    pub open spec fn starts_as(self, k: int) -> bool {
        &&& self.id@ == DEFS[k][0]@
        &&& self.label@ == DEFS[k][1]@
        &&& self.mode == MODES[k]
        &&& forall|axis: int| 0 <= axis < 3 ==> (#[trigger] self.colour[axis]).bits == COLOURS[k][axis]
    }

    /// The same category, drawn another way.
    pub open spec fn drawn_as(self, mode: Mode) -> Category {
        Category { mode: mode, ..self }
    }
}

/// Which patterns of the table match somewhere in a text.
pub open spec fn claimed_by(text: Seq<char>) -> Seq<bool> {
    Seq::new(PATTERNED as nat, |k: int| found_in(DEFS[k][2]@, text))
}

/// Every instance has the category of the first pattern that its material
/// matches, or else its name, and the last category where no pattern matches.
pub open spec fn classifies(scene: &Scene, assigned: Seq<u8>) -> bool {
    &&& assigned.len() == scene.instances@.len()
    &&& forall|id: int| 0 <= id < assigned.len() ==> is_choice(
        claimed_by(scene.material_of(id)),
        claimed_by(scene.name_of(id)),
        (#[trigger] assigned[id]) as int,
    )
}

/// Every pattern of the table compiles.
pub open spec fn table_compiles() -> bool {
    forall|k: int| 0 <= k < PATTERNED ==> compiles(#[trigger] DEFS[k][2]@)
}

/// How many instances are assigned to a category.
pub open spec fn tally(assigned: Seq<u8>, category: int) -> nat
    decreases assigned.len(),
{
    if assigned.len() == 0 {
        0
    } else {
        tally(assigned.drop_last(), category) + if assigned.last() == category {
            1nat
        } else {
            0nat
        }
    }
}

/// How many of the instances assigned to a category have anything to draw.
pub open spec fn drawable_tally(
    instances: Seq<Instance>,
    assigned: Seq<u8>,
    category: int,
) -> nat
    decreases assigned.len(),
{
    if assigned.len() == 0 {
        0
    } else {
        drawable_tally(instances, assigned.drop_last(), category) + if assigned.last() == category
            && instances[assigned.len() - 1].index_count != 0 {
            1nat
        } else {
            0nat
        }
    }
}

/// How many triangles the instances assigned to a category draw.
pub open spec fn triangle_tally(
    instances: Seq<Instance>,
    assigned: Seq<u8>,
    category: int,
) -> nat
    decreases assigned.len(),
{
    if assigned.len() == 0 {
        0
    } else {
        triangle_tally(instances, assigned.drop_last(), category) + if assigned.last() == category {
            (instances[assigned.len() - 1].index_count / 3) as nat
        } else {
            0nat
        }
    }
}

/// Instances with anything to draw, in the categories that are not hidden.
pub open spec fn drawn_instances(categories: Seq<Category>) -> nat
    decreases categories.len(),
{
    if categories.len() == 0 {
        0
    } else {
        drawn_instances(categories.drop_last()) + if categories.last().mode != Mode::Hidden {
            categories.last().drawable as nat
        } else {
            0nat
        }
    }
}

/// Triangles in the categories that are not hidden.
pub open spec fn drawn_triangles(categories: Seq<Category>) -> nat
    decreases categories.len(),
{
    if categories.len() == 0 {
        0
    } else {
        drawn_triangles(categories.drop_last()) + if categories.last().mode != Mode::Hidden {
            categories.last().triangles as nat
        } else {
            0nat
        }
    }
}

/// The mode that the process-plant view gives to a category.
pub open spec fn plant_mode(id: Seq<char>) -> Mode {
    if id == "pipe"@ || id == "duct"@ || id == "vessel"@ || id == "machinery"@ || id == "instrument"@ {
        Mode::Solid
    } else {
        Mode::Ghosted
    }
}

/// The mode that the pipes-only view gives to a category.
pub open spec fn pipes_mode(id: Seq<char>) -> Mode {
    if id == "pipe"@ || id == "instrument"@ {
        Mode::Solid
    } else {
        Mode::Hidden
    }
}

/// Hidden becomes ghosted, the rest stays.
pub open spec fn raised(mode: Mode) -> Mode {
    if mode == Mode::Hidden {
        Mode::Ghosted
    } else {
        mode
    }
}

/// Ghosted becomes hidden, the rest stays.
pub open spec fn lowered(mode: Mode) -> Mode {
    if mode == Mode::Ghosted {
        Mode::Hidden
    } else {
        mode
    }
}

fn plant_mode_of(id: &str) -> (r: Mode)
    ensures
        r == plant_mode(id@),
{
    if same_text(id, "pipe") || same_text(id, "duct") || same_text(id, "vessel") || same_text(id, "machinery")
        || same_text(id, "instrument") {
        Mode::Solid
    } else {
        Mode::Ghosted
    }
}

fn pipes_mode_of(id: &str) -> (r: Mode)
    ensures
        r == pipes_mode(id@),
{
    if same_text(id, "pipe") || same_text(id, "instrument") {
        Mode::Solid
    } else {
        Mode::Hidden
    }
}

/// A tally never exceeds what it tallies.
proof fn lemma_tally_bounds(instances: Seq<Instance>, assigned: Seq<u8>, category: int)
    ensures
        tally(assigned, category) <= assigned.len(),
        drawable_tally(instances, assigned, category) <= tally(assigned, category),
        triangle_tally(instances, assigned, category) <= assigned.len() * 0x5555_5555,
    decreases assigned.len(),
{
    if assigned.len() > 0 {
        lemma_tally_bounds(instances, assigned.drop_last(), category);
    }
}

/// The patterns of the table, in order.
fn patterns() -> (r: Vec<&'static str>)
    ensures
        r@.len() == PATTERNED,
        forall|k: int| 0 <= k < PATTERNED ==> (#[trigger] r@[k])@ == DEFS[k][2]@,
{
    let mut patterns: Vec<&'static str> = Vec::new();
    let mut k: usize = 0;
    while k < PATTERNED
        invariant
            k <= PATTERNED,
            patterns@.len() == k,
            forall|j: int| 0 <= j < k ==> (#[trigger] patterns@[j])@ == DEFS[j][2]@,
        decreases PATTERNED - k,
    {
        patterns.push(DEFS[k][2]);
        k += 1;
    }
    patterns
}

/// The categories as the table has them, with nothing counted yet.
fn defaults() -> (r: Vec<Category>)
    ensures
        r@.len() == COUNT,
        forall|k: int| 0 <= k < COUNT ==> {
            &&& (#[trigger] r@[k]).starts_as(k)
            &&& r@[k].instances == 0
            &&& r@[k].drawable == 0
            &&& r@[k].triangles == 0
        },
{
    let mut categories: Vec<Category> = Vec::new();
    let mut k: usize = 0;
    while k < COUNT
        invariant
            k <= COUNT,
            categories@.len() == k,
            forall|j: int| 0 <= j < k ==> {
                &&& (#[trigger] categories@[j]).starts_as(j)
                &&& categories@[j].instances == 0
                &&& categories@[j].drawable == 0
                &&& categories@[j].triangles == 0
            },
        decreases COUNT - k,
    {
        categories.push(
            Category {
                id: DEFS[k][0],
                label: DEFS[k][1],
                colour: [
                    Single { bits: COLOURS[k][0] },
                    Single { bits: COLOURS[k][1] },
                    Single { bits: COLOURS[k][2] },
                ],
                mode: MODES[k],
                instances: 0,
                drawable: 0,
                triangles: 0,
            },
        );
        k += 1;
    }
    categories
}

/// Categories plus the per-instance assignment.
pub struct Classification {
    /// Display state, in [`DEFS`] order with `other` last.
    pub categories: Vec<Category>,
    /// Category index for each instance, parallel to the scene's instances.
    pub of_instance: Vec<u8>,
}

impl Classification {
    /// Counts what the assignment assigns, whatever the modes and colours.
    pub open spec fn counts(&self, scene: &Scene) -> bool {
        &&& self.categories@.len() == COUNT
        &&& self.of_instance@.len() == scene.instances@.len()
        &&& forall|id: int| 0 <= id < self.of_instance@.len() ==> (#[trigger] self.of_instance@[id]) < COUNT
        &&& forall|k: int| 0 <= k < COUNT ==> {
            &&& (#[trigger] self.categories@[k]).instances == tally(self.of_instance@, k)
            &&& self.categories@[k].drawable == drawable_tally(scene.instances@, self.of_instance@, k)
            &&& self.categories@[k].triangles == triangle_tally(scene.instances@, self.of_instance@, k)
            &&& self.categories@[k].id@ == DEFS[k][0]@
            &&& self.categories@[k].label@ == DEFS[k][1]@
        }
    }

    /// Which category an instance belongs to: the one it was assigned, the first
    /// for an instance that was not assigned any, and never past the last.
    pub open spec fn slot_of(&self, id: int) -> int {
        let assigned = if 0 <= id < self.of_instance@.len() {
            self.of_instance@[id] as int
        } else {
            0
        };
        if assigned < self.categories@.len() {
            assigned
        } else {
            self.categories@.len() - 1
        }
    }

    /// How an instance is drawn.
    pub open spec fn mode_at(&self, id: int) -> Mode {
        self.categories@[self.slot_of(id)].mode
    }

    /// Whether an instance is drawn at all.
    pub open spec fn shows(&self, id: int) -> bool {
        self.mode_at(id) != Mode::Hidden
    }

    /// Least coordinate of the first `n` instances that are drawn.
    pub open spec fn lowest(&self, scene: &Scene, axis: int, n: nat) -> Single
        decreases n,
    {
        if n == 0 {
            Single { bits: INFINITY }
        } else {
            let before = self.lowest(scene, axis, (n - 1) as nat);
            if self.shows(n - 1) {
                before.lesser(scene.instances@[n - 1].aabb_min[axis])
            } else {
                before
            }
        }
    }

    /// Greatest coordinate of the first `n` instances that are drawn.
    pub open spec fn highest(&self, scene: &Scene, axis: int, n: nat) -> Single
        decreases n,
    {
        if n == 0 {
            Single { bits: NEG_INFINITY }
        } else {
            let before = self.highest(scene, axis, (n - 1) as nat);
            if self.shows(n - 1) {
                before.greater(scene.instances@[n - 1].aabb_max[axis])
            } else {
                before
            }
        }
    }

    /// Only the modes differ from another classification.
    pub open spec fn differs_in_modes_only(&self, other: &Classification) -> bool {
        &&& self.of_instance == other.of_instance
        &&& self.categories@.len() == other.categories@.len()
        &&& forall|k: int| 0 <= k < self.categories@.len() ==> (#[trigger] self.categories@[k])
            == other.categories@[k].drawn_as(self.categories@[k].mode)
    }

    /// Classify every instance in the scene.
    ///
    /// Fails only if one of the built-in patterns does not compile.
    pub fn new(scene: &Scene) -> (r: Result<Self, BadPattern>)
        requires
            scene.wf(),
        ensures
            match r {
                Ok(made) => {
                    &&& table_compiles()
                    &&& made.counts(scene)
                    &&& forall|k: int| 0 <= k < COUNT ==> (#[trigger] made.categories@[k]).starts_as(k)
                    &&& classifies(scene, made.of_instance@)
                },
                Err(bad) => {
                    &&& bad.index < PATTERNED
                    &&& !compiles(DEFS[bad.index as int][2]@)
                    &&& forall|k: int| 0 <= k < bad.index ==> compiles(#[trigger] DEFS[k][2]@)
                },
            },
    {
        let patterns: Vec<&'static str> = patterns();
        let compiled: Vec<Regex> = match compile(&patterns) {
            Ok(compiled) => compiled,
            Err(bad) => {
                assert forall|k: int| 0 <= k < bad.index implies compiles(#[trigger] DEFS[k][2]@) by {
                    assert(compiles(patterns@[k]@));
                }
                return Err(bad);
            },
        };
        assert forall|k: int| 0 <= k < PATTERNED implies compiles(#[trigger] DEFS[k][2]@) by {
            assert(compiles(patterns@[k]@));
        }
        assert forall|k: int| 0 <= k < PATTERNED implies made_of(#[trigger] compiled@[k], DEFS[k][2]@) by {
            assert(compiles(patterns@[k]@));
        }
        let mut assigned: Vec<u8> = Vec::new();
        let mut id: usize = 0;
        while id < scene.instances.len()
            invariant
                id <= scene.instances@.len(),
                assigned@.len() == id,
                compiled@.len() == PATTERNED,
                forall|k: int| 0 <= k < PATTERNED ==> made_of(#[trigger] compiled@[k], DEFS[k][2]@),
                forall|j: int| 0 <= j < id ==> (#[trigger] assigned@[j]) < COUNT,
                forall|j: int| 0 <= j < id ==> is_choice(
                    claimed_by(scene.material_of(j)),
                    claimed_by(scene.name_of(j)),
                    (#[trigger] assigned@[j]) as int,
                ),
            decreases scene.instances@.len() - id,
        {
            let instance: &Instance = &scene.instances[id];
            let material: &str = scene.material_name(instance.material);
            let name: &str = instance.name.as_str();
            let index: usize = decide(&compiled, material, name);
            assert forall|text: Seq<char>| #[trigger] finders(compiled@, text) == claimed_by(text) by {
                assert forall|k: int| 0 <= k < PATTERNED implies #[trigger] finders(compiled@, text)[k] == claimed_by(
                    text,
                )[k] by {
                    assert(made_of(compiled@[k], DEFS[k][2]@));
                }
                assert(finders(compiled@, text) =~= claimed_by(text));
            }
            assigned.push(index as u8);
            id += 1;
        }
        Ok(Classification::from_assignment(scene, assigned))
    }

    /// The classification that an assignment of categories to instances amounts
    /// to: the table's defaults, and what landed in each category.
    pub fn from_assignment(scene: &Scene, of_instance: Vec<u8>) -> (r: Self)
        requires
            scene.wf(),
            of_instance@.len() == scene.instances@.len(),
            forall|id: int| 0 <= id < of_instance@.len() ==> (#[trigger] of_instance@[id]) < COUNT,
        ensures
            r.of_instance == of_instance,
            r.counts(scene),
            forall|k: int| 0 <= k < COUNT ==> (#[trigger] r.categories@[k]).starts_as(k),
    {
        let mut categories: Vec<Category> = defaults();
        let mut id: usize = 0;
        assert(of_instance@.take(0) =~= Seq::empty());
        while id < of_instance.len()
            invariant
                id <= of_instance@.len(),
                of_instance@.len() == scene.instances@.len(),
                scene.instances@.len() <= u32::MAX,
                categories@.len() == COUNT,
                forall|j: int| 0 <= j < of_instance@.len() ==> (#[trigger] of_instance@[j]) < COUNT,
                forall|k: int| 0 <= k < COUNT ==> (#[trigger] categories@[k]).starts_as(k),
                forall|k: int| 0 <= k < COUNT ==> {
                    &&& (#[trigger] categories@[k]).instances == tally(of_instance@.take(id as int), k)
                    &&& categories@[k].drawable == drawable_tally(
                        scene.instances@,
                        of_instance@.take(id as int),
                        k,
                    )
                    &&& categories@[k].triangles == triangle_tally(
                        scene.instances@,
                        of_instance@.take(id as int),
                        k,
                    )
                },
            decreases of_instance@.len() - id,
        {
            let index: usize = of_instance[id] as usize;
            let ghost before = categories@;
            proof {
                let now = of_instance@.take(id + 1);
                assert(now.drop_last() =~= of_instance@.take(id as int));
                assert(now.last() == of_instance@[id as int]);
                lemma_tally_bounds(scene.instances@, of_instance@.take(id as int), index as int);
            }
            assert(categories@[index as int].instances <= id);
            assert(categories@[index as int].triangles <= id * 0x5555_5555);
            let triangles: u64 = (scene.instances[id].index_count / 3) as u64;
            categories[index].instances = categories[index].instances + 1;
            if scene.instances[id].index_count != 0 {
                categories[index].drawable = categories[index].drawable + 1;
            }
            categories[index].triangles = categories[index].triangles + triangles;
            id += 1;
            assert forall|k: int| 0 <= k < COUNT implies {
                &&& (#[trigger] categories@[k]).instances == tally(of_instance@.take(id as int), k)
                &&& categories@[k].drawable == drawable_tally(scene.instances@, of_instance@.take(id as int), k)
                &&& categories@[k].triangles == triangle_tally(scene.instances@, of_instance@.take(id as int), k)
                &&& categories@[k].starts_as(k)
            } by {
                if k != index {
                    assert(categories@[k] == before[k]);
                }
                assert(before[k].starts_as(k));
            }
        }
        assert(of_instance@.take(of_instance@.len() as int) =~= of_instance@);
        Classification { categories, of_instance }
    }

    /// The category an instance belongs to.
    #[must_use]
    pub fn category_of(&self, instance: usize) -> (r: &Category)
        requires
            self.categories@.len() > 0,
        ensures
            *r == self.categories@[self.slot_of(instance as int)],
            instance < self.of_instance@.len() && self.of_instance@[instance as int]
                < self.categories@.len() ==> *r
                == self.categories@[self.of_instance@[instance as int] as int],
            instance < self.of_instance@.len() && self.of_instance@[instance as int]
                >= self.categories@.len() ==> *r == self.categories@[self.categories@.len() - 1],
            instance >= self.of_instance@.len() ==> *r == self.categories@[0],
    {
        let assigned: usize = if instance < self.of_instance.len() {
            self.of_instance[instance] as usize
        } else {
            0
        };
        let last: usize = self.categories.len() - 1;
        if assigned < last {
            &self.categories[assigned]
        } else {
            &self.categories[last]
        }
    }

    /// Index of a category by id.
    #[must_use]
    pub fn index_of(&self, id: &str) -> (r: Option<usize>)
        ensures
            match r {
                Some(k) => {
                    &&& k < self.categories@.len()
                    &&& self.categories@[k as int].id@ == id@
                    &&& forall|j: int| 0 <= j < k ==> (#[trigger] self.categories@[j]).id@ != id@
                },
                None => forall|j: int| 0 <= j < self.categories@.len() ==> (#[trigger] self.categories@[j]).id@
                    != id@,
            },
    {
        let mut k: usize = 0;
        while k < self.categories.len()
            invariant
                k <= self.categories@.len(),
                forall|j: int| 0 <= j < k ==> (#[trigger] self.categories@[j]).id@ != id@,
            decreases self.categories@.len() - k,
        {
            if same_text(self.categories[k].id, id) {
                return Some(k);
            }
            k += 1;
        }
        None
    }

    /// Set every category to one mode.
    pub fn set_all(&mut self, mode: Mode)
        ensures
            final(self).of_instance == old(self).of_instance,
            final(self).categories@.len() == old(self).categories@.len(),
            forall|k: int| 0 <= k < old(self).categories@.len() ==> (#[trigger] final(self).categories@[k])
                == old(self).categories@[k].drawn_as(mode),
    {
        let mut k: usize = 0;
        while k < self.categories.len()
            invariant
                k <= self.categories@.len(),
                self.of_instance == old(self).of_instance,
                self.categories@.len() == old(self).categories@.len(),
                forall|j: int| 0 <= j < k ==> (#[trigger] self.categories@[j]) == old(self).categories@[j].drawn_as(
                    mode,
                ),
                forall|j: int| k <= j < self.categories@.len() ==> (#[trigger] self.categories@[j])
                    == old(self).categories@[j],
            decreases self.categories@.len() - k,
        {
            self.categories[k].mode = mode;
            k += 1;
        }
    }

    /// Show the process plant solid and ghost the rest — the view the whole
    /// project exists to produce, on one key.
    pub fn preset_plant(&mut self)
        ensures
            final(self).of_instance == old(self).of_instance,
            final(self).categories@.len() == old(self).categories@.len(),
            forall|k: int| 0 <= k < old(self).categories@.len() ==> (#[trigger] final(self).categories@[k])
                == old(self).categories@[k].drawn_as(plant_mode(old(self).categories@[k].id@)),
    {
        let mut k: usize = 0;
        while k < self.categories.len()
            invariant
                k <= self.categories@.len(),
                self.of_instance == old(self).of_instance,
                self.categories@.len() == old(self).categories@.len(),
                forall|j: int| 0 <= j < k ==> (#[trigger] self.categories@[j])
                    == old(self).categories@[j].drawn_as(plant_mode(old(self).categories@[j].id@)),
                forall|j: int| k <= j < self.categories@.len() ==> (#[trigger] self.categories@[j])
                    == old(self).categories@[j],
            decreases self.categories@.len() - k,
        {
            self.categories[k].mode = plant_mode_of(self.categories[k].id);
            k += 1;
        }
    }

    /// Pipework and instrumentation alone, nothing else drawn at all.
    pub fn preset_pipes_only(&mut self)
        ensures
            final(self).of_instance == old(self).of_instance,
            final(self).categories@.len() == old(self).categories@.len(),
            forall|k: int| 0 <= k < old(self).categories@.len() ==> (#[trigger] final(self).categories@[k])
                == old(self).categories@[k].drawn_as(pipes_mode(old(self).categories@[k].id@)),
    {
        let mut k: usize = 0;
        while k < self.categories.len()
            invariant
                k <= self.categories@.len(),
                self.of_instance == old(self).of_instance,
                self.categories@.len() == old(self).categories@.len(),
                forall|j: int| 0 <= j < k ==> (#[trigger] self.categories@[j])
                    == old(self).categories@[j].drawn_as(pipes_mode(old(self).categories@[j].id@)),
                forall|j: int| k <= j < self.categories@.len() ==> (#[trigger] self.categories@[j])
                    == old(self).categories@[j],
            decreases self.categories@.len() - k,
        {
            self.categories[k].mode = pipes_mode_of(self.categories[k].id);
            k += 1;
        }
    }

    /// Everything solid, as the map really looks.
    pub fn preset_everything(&mut self)
        ensures
            final(self).of_instance == old(self).of_instance,
            final(self).categories@.len() == old(self).categories@.len(),
            forall|k: int| 0 <= k < old(self).categories@.len() ==> (#[trigger] final(self).categories@[k])
                == old(self).categories@[k].drawn_as(Mode::Solid),
    {
        self.set_all(Mode::Solid);
    }

    /// Bring back everything hidden, as an x-ray shell.
    pub fn ghost_hidden(&mut self)
        ensures
            final(self).of_instance == old(self).of_instance,
            final(self).categories@.len() == old(self).categories@.len(),
            forall|k: int| 0 <= k < old(self).categories@.len() ==> (#[trigger] final(self).categories@[k])
                == old(self).categories@[k].drawn_as(raised(old(self).categories@[k].mode)),
    {
        let mut k: usize = 0;
        while k < self.categories.len()
            invariant
                k <= self.categories@.len(),
                self.of_instance == old(self).of_instance,
                self.categories@.len() == old(self).categories@.len(),
                forall|j: int| 0 <= j < k ==> (#[trigger] self.categories@[j])
                    == old(self).categories@[j].drawn_as(raised(old(self).categories@[j].mode)),
                forall|j: int| k <= j < self.categories@.len() ==> (#[trigger] self.categories@[j])
                    == old(self).categories@[j],
            decreases self.categories@.len() - k,
        {
            if self.categories[k].mode == Mode::Hidden {
                self.categories[k].mode = Mode::Ghosted;
            }
            k += 1;
        }
    }

    /// Drop everything currently ghosted.
    pub fn hide_ghosted(&mut self)
        ensures
            final(self).of_instance == old(self).of_instance,
            final(self).categories@.len() == old(self).categories@.len(),
            forall|k: int| 0 <= k < old(self).categories@.len() ==> (#[trigger] final(self).categories@[k])
                == old(self).categories@[k].drawn_as(lowered(old(self).categories@[k].mode)),
    {
        let mut k: usize = 0;
        while k < self.categories.len()
            invariant
                k <= self.categories@.len(),
                self.of_instance == old(self).of_instance,
                self.categories@.len() == old(self).categories@.len(),
                forall|j: int| 0 <= j < k ==> (#[trigger] self.categories@[j])
                    == old(self).categories@[j].drawn_as(lowered(old(self).categories@[j].mode)),
                forall|j: int| k <= j < self.categories@.len() ==> (#[trigger] self.categories@[j])
                    == old(self).categories@[j],
            decreases self.categories@.len() - k,
        {
            if self.categories[k].mode == Mode::Ghosted {
                self.categories[k].mode = Mode::Hidden;
            }
            k += 1;
        }
    }

    fn shows_any(&self, scene: &Scene) -> (r: bool)
        requires
            self.categories@.len() > 0,
        ensures
            r == exists|id: int| 0 <= id < scene.instances@.len() && self.shows(id),
    {
        let mut id: usize = 0;
        while id < scene.instances.len()
            invariant
                id <= scene.instances@.len(),
                self.categories@.len() > 0,
                forall|j: int| 0 <= j < id ==> !self.shows(j),
            decreases scene.instances@.len() - id,
        {
            if self.category_of(id).mode != Mode::Hidden {
                assert(self.shows(id as int));
                return true;
            }
            id += 1;
        }
        false
    }

    fn low_edge(&self, scene: &Scene, axis: usize) -> (r: Single)
        requires
            self.categories@.len() > 0,
            axis < 3,
        ensures
            r == self.lowest(scene, axis as int, scene.instances@.len()),
    {
        let mut edge: Single = Single { bits: INFINITY };
        let mut id: usize = 0;
        while id < scene.instances.len()
            invariant
                id <= scene.instances@.len(),
                self.categories@.len() > 0,
                axis < 3,
                edge == self.lowest(scene, axis as int, id as nat),
            decreases scene.instances@.len() - id,
        {
            if self.category_of(id).mode != Mode::Hidden {
                edge = edge.min(scene.instances[id].aabb_min[axis]);
            }
            id += 1;
        }
        edge
    }

    fn high_edge(&self, scene: &Scene, axis: usize) -> (r: Single)
        requires
            self.categories@.len() > 0,
            axis < 3,
        ensures
            r == self.highest(scene, axis as int, scene.instances@.len()),
    {
        let mut edge: Single = Single { bits: NEG_INFINITY };
        let mut id: usize = 0;
        while id < scene.instances.len()
            invariant
                id <= scene.instances@.len(),
                self.categories@.len() > 0,
                axis < 3,
                edge == self.highest(scene, axis as int, id as nat),
            decreases scene.instances@.len() - id,
        {
            if self.category_of(id).mode != Mode::Hidden {
                edge = edge.max(scene.instances[id].aabb_max[axis]);
            }
            id += 1;
        }
        edge
    }

    /// World bounding box of everything not hidden, in metres.
    ///
    /// Framing the whole map when only the pipework is drawn leaves it a smudge
    /// in the middle of an empty frame, so the camera frames what is visible.
    /// Falls back to the scene bounds when nothing is drawn.
    #[must_use]
    pub fn visible_bounds(&self, scene: &Scene) -> (r: ([Single; 3], [Single; 3]))
        requires
            self.categories@.len() > 0,
        ensures
            if exists|id: int| 0 <= id < scene.instances@.len() && self.shows(id) {
                forall|axis: int| 0 <= axis < 3 ==> {
                    &&& (#[trigger] r.0[axis]) == self.lowest(scene, axis, scene.instances@.len())
                    &&& r.1[axis] == self.highest(scene, axis, scene.instances@.len())
                }
            } else {
                r.0 == scene.scene_min && r.1 == scene.scene_max
            },
    {
        if self.shows_any(scene) {
            (
                [self.low_edge(scene, 0), self.low_edge(scene, 1), self.low_edge(scene, 2)],
                [self.high_edge(scene, 0), self.high_edge(scene, 1), self.high_edge(scene, 2)],
            )
        } else {
            (scene.scene_min, scene.scene_max)
        }
    }

    /// Instances and triangles that will actually be drawn.
    #[must_use]
    pub fn drawn(&self) -> (r: (u32, u64))
        requires
            drawn_instances(self.categories@) <= u32::MAX,
            drawn_triangles(self.categories@) <= u64::MAX,
        ensures
            r.0 == drawn_instances(self.categories@),
            r.1 == drawn_triangles(self.categories@),
    {
        let mut instances: u32 = 0;
        let mut triangles: u64 = 0;
        let mut k: usize = 0;
        assert(self.categories@.take(0) =~= Seq::empty());
        while k < self.categories.len()
            invariant
                k <= self.categories@.len(),
                drawn_instances(self.categories@) <= u32::MAX,
                drawn_triangles(self.categories@) <= u64::MAX,
                instances == drawn_instances(self.categories@.take(k as int)),
                triangles == drawn_triangles(self.categories@.take(k as int)),
            decreases self.categories@.len() - k,
        {
            proof {
                let next = self.categories@.take(k + 1);
                assert(next.drop_last() =~= self.categories@.take(k as int));
                assert(next.last() == self.categories@[k as int]);
                lemma_drawn_prefix(self.categories@, k + 1);
            }
            if self.categories[k].mode != Mode::Hidden {
                instances = instances + self.categories[k].drawable;
                triangles = triangles + self.categories[k].triangles;
            }
            k += 1;
        }
        assert(self.categories@.take(self.categories@.len() as int) =~= self.categories@);
        (instances, triangles)
    }
}

/// What the first categories draw is no more than what all of them draw.
proof fn lemma_drawn_prefix(categories: Seq<Category>, n: int)
    requires
        0 <= n <= categories.len(),
    ensures
        drawn_instances(categories.take(n)) <= drawn_instances(categories),
        drawn_triangles(categories.take(n)) <= drawn_triangles(categories),
    decreases categories.len(),
{
    if n == categories.len() {
        assert(categories.take(n) =~= categories);
    } else {
        let shorter = categories.drop_last();
        lemma_drawn_prefix(shorter, n);
        assert(shorter.take(n) =~= categories.take(n));
    }
}

/// How many instances land in the first `n` categories.
pub open spec fn landed(assigned: Seq<u8>, n: nat) -> nat
    decreases n,
{
    if n == 0 {
        0
    } else {
        landed(assigned, (n - 1) as nat) + tally(assigned, n - 1)
    }
}

/// How many instances with anything to draw land in the first `n` categories.
pub open spec fn drawable_landed(instances: Seq<Instance>, assigned: Seq<u8>, n: nat) -> nat
    decreases n,
{
    if n == 0 {
        0
    } else {
        drawable_landed(instances, assigned, (n - 1) as nat) + drawable_tally(instances, assigned, n - 1)
    }
}

/// How many triangles land in the first `n` categories.
pub open spec fn triangles_landed(instances: Seq<Instance>, assigned: Seq<u8>, n: nat) -> nat
    decreases n,
{
    if n == 0 {
        0
    } else {
        triangles_landed(instances, assigned, (n - 1) as nat) + triangle_tally(instances, assigned, n - 1)
    }
}

/// How many of the first `n` instances have anything to draw.
pub open spec fn drawable_of(instances: Seq<Instance>, n: nat) -> nat
    decreases n,
{
    if n == 0 {
        0
    } else {
        drawable_of(instances, (n - 1) as nat) + if instances[n - 1].index_count != 0 {
            1nat
        } else {
            0nat
        }
    }
}

/// How many triangles the first `n` instances draw.
pub open spec fn triangles_of(instances: Seq<Instance>, n: nat) -> nat
    decreases n,
{
    if n == 0 {
        0
    } else {
        triangles_of(instances, (n - 1) as nat) + (instances[n - 1].index_count / 3) as nat
    }
}

/// One more instance lands in one more category.
proof fn lemma_landed_step(instances: Seq<Instance>, assigned: Seq<u8>, n: nat)
    requires
        assigned.len() > 0,
    ensures
        landed(assigned, n) == landed(assigned.drop_last(), n) + if assigned.last() < n {
            1nat
        } else {
            0nat
        },
        drawable_landed(instances, assigned, n) == drawable_landed(instances, assigned.drop_last(), n)
            + if assigned.last() < n && instances[assigned.len() - 1].index_count != 0 {
            1nat
        } else {
            0nat
        },
        triangles_landed(instances, assigned, n) == triangles_landed(instances, assigned.drop_last(), n)
            + if assigned.last() < n {
            (instances[assigned.len() - 1].index_count / 3) as nat
        } else {
            0nat
        },
    decreases n,
{
    if n > 0 {
        lemma_landed_step(instances, assigned, (n - 1) as nat);
    }
}

/// With nothing assigned, nothing lands.
proof fn lemma_landed_empty(instances: Seq<Instance>, assigned: Seq<u8>, n: nat)
    requires
        assigned.len() == 0,
    ensures
        landed(assigned, n) == 0,
        drawable_landed(instances, assigned, n) == 0,
        triangles_landed(instances, assigned, n) == 0,
    decreases n,
{
    if n > 0 {
        lemma_landed_empty(instances, assigned, (n - 1) as nat);
    }
}

/// Every instance lands in exactly one category: the categories' counts add up
/// to the number of instances, what they can draw to the instances with anything
/// to draw, and their triangles to what the instances draw.
pub proof fn law_every_instance_lands_once(instances: Seq<Instance>, assigned: Seq<u8>)
    requires
        forall|id: int| 0 <= id < assigned.len() ==> (#[trigger] assigned[id]) < COUNT,
    ensures
        landed(assigned, COUNT as nat) == assigned.len(),
        drawable_landed(instances, assigned, COUNT as nat) == drawable_of(instances, assigned.len()),
        triangles_landed(instances, assigned, COUNT as nat) == triangles_of(instances, assigned.len()),
    decreases assigned.len(),
{
    if assigned.len() == 0 {
        lemma_landed_empty(instances, assigned, COUNT as nat);
    } else {
        let shorter = assigned.drop_last();
        assert forall|id: int| 0 <= id < shorter.len() implies (#[trigger] shorter[id]) < COUNT by {
            assert(shorter[id] == assigned[id]);
        }
        law_every_instance_lands_once(instances, shorter);
        lemma_landed_step(instances, assigned, COUNT as nat);
    }
}

/// What the first categories draw is part of what landed in them.
proof fn lemma_drawn_within_landed(scene: &Scene, c: &Classification, n: int)
    requires
        c.counts(scene),
        0 <= n <= COUNT,
    ensures
        drawn_instances(c.categories@.take(n)) <= drawable_landed(scene.instances@, c.of_instance@, n as nat),
        drawn_triangles(c.categories@.take(n)) <= triangles_landed(
            scene.instances@,
            c.of_instance@,
            n as nat,
        ),
        (forall|k: int| 0 <= k < n ==> (#[trigger] c.categories@[k]).mode != Mode::Hidden) ==> {
            &&& drawn_instances(c.categories@.take(n)) == drawable_landed(
                scene.instances@,
                c.of_instance@,
                n as nat,
            )
            &&& drawn_triangles(c.categories@.take(n)) == triangles_landed(
                scene.instances@,
                c.of_instance@,
                n as nat,
            )
        },
    decreases n,
{
    if n > 0 {
        lemma_drawn_within_landed(scene, c, n - 1);
        assert(c.categories@.take(n).drop_last() =~= c.categories@.take(n - 1));
        assert(c.categories@.take(n).last() == c.categories@[n - 1]);
    }
}

/// All the instances together draw a number of triangles that fits 64 bits.
proof fn lemma_triangles_fit(instances: Seq<Instance>, n: nat)
    ensures
        drawable_of(instances, n) <= n,
        triangles_of(instances, n) <= n * 0x5555_5555,
    decreases n,
{
    if n > 0 {
        lemma_triangles_fit(instances, (n - 1) as nat);
    }
}

/// A classification of a scene never draws more than the scene holds, whatever
/// its modes, so its totals always fit; with nothing hidden it draws all of it
/// that can be drawn.
pub proof fn law_drawn_is_part_of_the_scene(scene: &Scene, c: &Classification)
    requires
        scene.wf(),
        c.counts(scene),
    ensures
        drawn_instances(c.categories@) <= drawable_of(scene.instances@, scene.instances@.len())
            <= scene.instances@.len() <= u32::MAX,
        drawn_triangles(c.categories@) <= triangles_of(scene.instances@, scene.instances@.len()) <= u64::MAX,
        (forall|k: int| 0 <= k < COUNT ==> (#[trigger] c.categories@[k]).mode != Mode::Hidden) ==> {
            &&& drawn_instances(c.categories@) == drawable_of(scene.instances@, scene.instances@.len())
            &&& drawn_triangles(c.categories@) == triangles_of(scene.instances@, scene.instances@.len())
        },
{
    law_every_instance_lands_once(scene.instances@, c.of_instance@);
    lemma_drawn_within_landed(scene, c, COUNT as int);
    assert(c.categories@.take(COUNT as int) =~= c.categories@);
    lemma_triangles_fit(scene.instances@, scene.instances@.len());
}

/// Changing modes changes nothing that was counted.
pub proof fn law_restyling_keeps_the_counts(scene: &Scene, before: &Classification, after: &Classification)
    requires
        before.counts(scene),
        after.differs_in_modes_only(before),
    ensures
        after.counts(scene),
        forall|id: int| after.slot_of(id) == before.slot_of(id),
{
    assert forall|k: int| 0 <= k < COUNT implies {
        &&& (#[trigger] after.categories@[k]).instances == tally(after.of_instance@, k)
        &&& after.categories@[k].drawable == drawable_tally(scene.instances@, after.of_instance@, k)
        &&& after.categories@[k].triangles == triangle_tally(scene.instances@, after.of_instance@, k)
        &&& after.categories@[k].id@ == DEFS[k][0]@
        &&& after.categories@[k].label@ == DEFS[k][1]@
    } by {
        let _ = before.categories@[k];
    }
}

/// Ghosting what is hidden leaves nothing hidden, hiding what is ghosted leaves
/// nothing ghosted, neither touches what is solid, and doing either twice is the
/// same as doing it once. One after the other hides all that was not solid.
pub proof fn law_bulk_ghosting(mode: Mode)
    ensures
        raised(mode) != Mode::Hidden,
        lowered(mode) != Mode::Ghosted,
        raised(mode) == Mode::Solid <==> mode == Mode::Solid,
        lowered(mode) == Mode::Solid <==> mode == Mode::Solid,
        raised(raised(mode)) == raised(mode),
        lowered(lowered(mode)) == lowered(mode),
        lowered(raised(mode)) == if mode == Mode::Solid {
            Mode::Solid
        } else {
            Mode::Hidden
        },
{
}

/// The box of what is visible reaches at least as far down as every visible
/// instance whose edge is a number.
pub proof fn law_visible_bounds_cover_from_below(c: &Classification, scene: &Scene, axis: int, n: nat, id: int)
    requires
        n <= scene.instances@.len(),
        0 <= axis < 3,
        0 <= id < n,
        c.shows(id),
        !scene.instances@[id].aabb_min[axis].nan(),
    ensures
        c.lowest(scene, axis, n).at_most(scene.instances@[id].aabb_min[axis]),
    decreases n,
{
    lemma_lowest_is_a_number(c, scene, axis, (n - 1) as nat);
    if id < n - 1 {
        law_visible_bounds_cover_from_below(c, scene, axis, (n - 1) as nat, id);
    }
}

proof fn lemma_lowest_is_a_number(c: &Classification, scene: &Scene, axis: int, n: nat)
    requires
        n <= scene.instances@.len(),
    ensures
        !c.lowest(scene, axis, n).nan(),
        c.lowest(scene, axis, n).rank() <= INFINITY,
    decreases n,
{
    if n > 0 {
        lemma_lowest_is_a_number(c, scene, axis, (n - 1) as nat);
    }
}

/// The box of what is visible reaches at least as far up as every visible
/// instance whose edge is a number.
pub proof fn law_visible_bounds_cover_from_above(c: &Classification, scene: &Scene, axis: int, n: nat, id: int)
    requires
        n <= scene.instances@.len(),
        0 <= axis < 3,
        0 <= id < n,
        c.shows(id),
        !scene.instances@[id].aabb_max[axis].nan(),
    ensures
        scene.instances@[id].aabb_max[axis].at_most(c.highest(scene, axis, n)),
    decreases n,
{
    lemma_highest_is_a_number(c, scene, axis, (n - 1) as nat);
    if id < n - 1 {
        law_visible_bounds_cover_from_above(c, scene, axis, (n - 1) as nat, id);
    }
}

proof fn lemma_highest_is_a_number(c: &Classification, scene: &Scene, axis: int, n: nat)
    requires
        n <= scene.instances@.len(),
    ensures
        !c.highest(scene, axis, n).nan(),
    decreases n,
{
    if n > 0 {
        lemma_highest_is_a_number(c, scene, axis, (n - 1) as nat);
    }
}

/// No two categories share an id, so an id names one category.
pub proof fn law_category_ids_are_unique(a: int, b: int)
    requires
        0 <= a < COUNT,
        0 <= b < COUNT,
        DEFS[a][0]@ == DEFS[b][0]@,
    ensures
        a == b,
{
    reveal_strlit("pipe");
    reveal_strlit("duct");
    reveal_strlit("vessel");
    reveal_strlit("machinery");
    reveal_strlit("instrument");
    reveal_strlit("electrical");
    reveal_strlit("cabling");
    reveal_strlit("access");
    reveal_strlit("lighting");
    reveal_strlit("structure");
    reveal_strlit("clutter");
    reveal_strlit("other");
    let word = DEFS[a][0]@;
    assert(word.len() == DEFS[b][0]@.len());
    assert(word[0] == DEFS[b][0]@[0]);
    assert(word[1] == DEFS[b][0]@[1]);
}

/// The first pattern that matches the material of an instance decides about it:
/// it matches, and no earlier one does. Where none matches the material the
/// first that matches the name decides, and where none matches either the
/// instance is left to the last category.
pub proof fn law_the_first_pattern_that_matches_wins(scene: &Scene, assigned: Seq<u8>, id: int)
    requires
        classifies(scene, assigned),
        0 <= id < assigned.len(),
    ensures
        forall|k: int|
            0 <= k < PATTERNED && #[trigger] found_in(DEFS[k][2]@, scene.material_of(id)) ==> assigned[id]
                <= k && found_in(DEFS[assigned[id] as int][2]@, scene.material_of(id)),
        (forall|k: int|
            0 <= k < PATTERNED ==> !#[trigger] found_in(DEFS[k][2]@, scene.material_of(id))) ==> forall|
            k: int,
        |
            0 <= k < PATTERNED && #[trigger] found_in(DEFS[k][2]@, scene.name_of(id)) ==> assigned[id]
                <= k && found_in(DEFS[assigned[id] as int][2]@, scene.name_of(id)),
        (forall|k: int|
            0 <= k < PATTERNED ==> !#[trigger] found_in(DEFS[k][2]@, scene.material_of(id)))
            && (forall|k: int|
            0 <= k < PATTERNED ==> !#[trigger] found_in(DEFS[k][2]@, scene.name_of(id)))
            ==> assigned[id] == PATTERNED,
{
    let material = scene.material_of(id);
    let name = scene.name_of(id);
    let by_material = claimed_by(material);
    let by_name = claimed_by(name);
    let index = assigned[id] as int;
    assert(is_choice(by_material, by_name, index));
    assert forall|k: int| 0 <= k < PATTERNED && #[trigger] found_in(DEFS[k][2]@, material) implies index
        <= k && found_in(DEFS[index][2]@, material) by {
        assert(by_material[k]);
        law_the_material_decides_first(by_material, by_name, by_name, index, index);
        if k < index {
            assert(!by_material[k]);
        }
    }
    if forall|k: int| 0 <= k < PATTERNED ==> !#[trigger] found_in(DEFS[k][2]@, material) {
        assert(!is_claimed(by_material));
        assert forall|k: int| 0 <= k < PATTERNED && #[trigger] found_in(DEFS[k][2]@, name) implies index
            <= k && found_in(DEFS[index][2]@, name) by {
            assert(by_name[k]);
            if k < index {
                assert(!by_name[k]);
            }
            assert(by_name[index]);
        }
        if forall|k: int| 0 <= k < PATTERNED ==> !#[trigger] found_in(DEFS[k][2]@, name) {
            if index < PATTERNED {
                assert(by_name[index] == found_in(DEFS[index][2]@, name));
            }
        }
    }
}

/// The plant view shows the process plant solid and ghosts all the rest; it hides
/// nothing.
pub proof fn law_the_plant_view(id: Seq<char>)
    ensures
        plant_mode(id) != Mode::Hidden,
        plant_mode(id) == Mode::Solid <==> seq!["pipe"@, "duct"@, "vessel"@, "machinery"@, "instrument"@].contains(
            id,
        ),
{
    let ids = seq!["pipe"@, "duct"@, "vessel"@, "machinery"@, "instrument"@];
    assert(ids[0] == "pipe"@ && ids[1] == "duct"@ && ids[2] == "vessel"@ && ids[3] == "machinery"@ && ids[4]
        == "instrument"@);
}

/// The pipes view shows pipework and instrumentation solid and nothing else at
/// all.
pub proof fn law_the_pipes_view(id: Seq<char>)
    ensures
        pipes_mode(id) != Mode::Ghosted,
        pipes_mode(id) == Mode::Solid <==> id == "pipe"@ || id == "instrument"@,
{
}

/// A click goes from solid to ghosted, from ghosted to hidden, and from hidden
/// back to solid.
pub proof fn law_the_order_of_the_cycle()
    ensures
        Mode::Solid.successor() == Mode::Ghosted,
        Mode::Ghosted.successor() == Mode::Hidden,
        Mode::Hidden.successor() == Mode::Solid,
{
}

/// The instances that a category counts are those assigned to it.
pub proof fn law_a_category_counts_its_instances(assigned: Seq<u8>, category: int)
    ensures
        Set::new(|id: int| 0 <= id < assigned.len() && assigned[id] == category).finite(),
        tally(assigned, category) == Set::new(
            |id: int| 0 <= id < assigned.len() && assigned[id] == category,
        ).len(),
    decreases assigned.len(),
{
    let all = Set::new(|id: int| 0 <= id < assigned.len() && assigned[id] == category);
    if assigned.len() == 0 {
        assert(all =~= Set::empty());
    } else {
        let shorter = assigned.drop_last();
        law_a_category_counts_its_instances(shorter, category);
        let before = Set::new(|id: int| 0 <= id < shorter.len() && shorter[id] == category);
        let last = assigned.len() - 1;
        if assigned.last() == category {
            assert(all =~= before.insert(last));
        } else {
            assert(all =~= before);
        }
    }
}

/// Of those, the ones that have anything to draw are those with indices.
pub proof fn law_a_category_counts_what_can_be_drawn(
    instances: Seq<Instance>,
    assigned: Seq<u8>,
    category: int,
)
    requires
        assigned.len() <= instances.len(),
    ensures
        Set::new(
            |id: int|
                0 <= id < assigned.len() && assigned[id] == category && instances[id].index_count > 0,
        ).finite(),
        drawable_tally(instances, assigned, category) == Set::new(
            |id: int|
                0 <= id < assigned.len() && assigned[id] == category && instances[id].index_count > 0,
        ).len(),
    decreases assigned.len(),
{
    let all = Set::new(
        |id: int| 0 <= id < assigned.len() && assigned[id] == category && instances[id].index_count > 0,
    );
    if assigned.len() == 0 {
        assert(all =~= Set::empty());
    } else {
        let shorter = assigned.drop_last();
        law_a_category_counts_what_can_be_drawn(instances, shorter, category);
        let before = Set::new(
            |id: int| 0 <= id < shorter.len() && shorter[id] == category && instances[id].index_count > 0,
        );
        let last = assigned.len() - 1;
        if assigned.last() == category && instances[last].index_count > 0 {
            assert(all =~= before.insert(last));
        } else {
            assert(all =~= before);
        }
    }
}

/// One more instance adds a third of its indices, rounded down, to the triangles
/// of its own category, and nothing to those of any other.
pub proof fn law_an_instance_adds_its_triangles(
    instances: Seq<Instance>,
    assigned: Seq<u8>,
    landed_in: u8,
    category: int,
)
    requires
        assigned.len() < instances.len(),
    ensures
        triangle_tally(instances, Seq::empty(), category) == 0,
        triangle_tally(instances, assigned.push(landed_in), category) - triangle_tally(
            instances,
            assigned,
            category,
        ) == if landed_in == category {
            instances[assigned.len() as int].index_count as int / 3
        } else {
            0
        },
{
    assert(assigned.push(landed_in).drop_last() =~= assigned);
}

/// The instances that are drawn are those with indices, in categories that are
/// not hidden.
pub proof fn law_what_is_counted_as_drawn(scene: &Scene, c: &Classification)
    requires
        scene.wf(),
        c.counts(scene),
    ensures
        drawn_instances(c.categories@) == Set::new(
            |id: int|
                {
                    &&& 0 <= id < scene.instances@.len()
                    &&& scene.instances@[id].index_count > 0
                    &&& c.categories@[c.of_instance@[id] as int].mode != Mode::Hidden
                },
        ).len(),
{
    lemma_drawn_set(scene, c, COUNT as int);
    assert(c.categories@.take(COUNT as int) =~= c.categories@);
    assert(Set::new(
        |id: int|
            {
                &&& 0 <= id < scene.instances@.len()
                &&& scene.instances@[id].index_count > 0
                &&& c.of_instance@[id] < COUNT
                &&& c.categories@[c.of_instance@[id] as int].mode != Mode::Hidden
            },
    ) =~= Set::new(
        |id: int|
            {
                &&& 0 <= id < scene.instances@.len()
                &&& scene.instances@[id].index_count > 0
                &&& c.categories@[c.of_instance@[id] as int].mode != Mode::Hidden
            },
    ));
}

proof fn lemma_drawn_set(scene: &Scene, c: &Classification, n: int)
    requires
        c.counts(scene),
        0 <= n <= COUNT,
    ensures
        ({
            let drawn = Set::new(
                |id: int|
                    {
                        &&& 0 <= id < scene.instances@.len()
                        &&& scene.instances@[id].index_count > 0
                        &&& c.of_instance@[id] < n
                        &&& c.categories@[c.of_instance@[id] as int].mode != Mode::Hidden
                    },
            );
            &&& drawn.finite()
            &&& drawn_instances(c.categories@.take(n)) == drawn.len()
        }),
    decreases n,
{
    let drawn = Set::new(
        |id: int|
            {
                &&& 0 <= id < scene.instances@.len()
                &&& scene.instances@[id].index_count > 0
                &&& c.of_instance@[id] < n
                &&& c.categories@[c.of_instance@[id] as int].mode != Mode::Hidden
            },
    );
    if n == 0 {
        assert(drawn =~= Set::empty());
    } else {
        lemma_drawn_set(scene, c, n - 1);
        let before = Set::new(
            |id: int|
                {
                    &&& 0 <= id < scene.instances@.len()
                    &&& scene.instances@[id].index_count > 0
                    &&& c.of_instance@[id] < n - 1
                    &&& c.categories@[c.of_instance@[id] as int].mode != Mode::Hidden
                },
        );
        law_a_category_counts_what_can_be_drawn(scene.instances@, c.of_instance@, n - 1);
        let here = Set::new(
            |id: int|
                0 <= id < c.of_instance@.len() && c.of_instance@[id] == n - 1
                    && scene.instances@[id].index_count > 0,
        );
        assert(c.categories@.take(n).drop_last() =~= c.categories@.take(n - 1));
        assert(c.categories@.take(n).last() == c.categories@[n - 1]);
        if c.categories@[n - 1].mode != Mode::Hidden {
            assert(drawn =~= before.union(here));
            vstd::set_lib::lemma_set_disjoint_lens(before, here);
        } else {
            assert(drawn =~= before);
        }
    }
}

/// Hiding a category takes away what it drew, and nothing else.
pub proof fn law_hiding_takes_away_what_was_drawn(categories: Seq<Category>, k: int)
    requires
        0 <= k < categories.len(),
        categories[k].mode != Mode::Hidden,
    ensures
        ({
            let hidden = categories.update(k, categories[k].drawn_as(Mode::Hidden));
            &&& drawn_instances(hidden) + categories[k].drawable == drawn_instances(categories)
            &&& drawn_triangles(hidden) + categories[k].triangles == drawn_triangles(categories)
        }),
    decreases categories.len(),
{
    let hidden = categories.update(k, categories[k].drawn_as(Mode::Hidden));
    let shorter = categories.drop_last();
    if k < shorter.len() {
        law_hiding_takes_away_what_was_drawn(shorter, k);
        assert(hidden.drop_last() =~= shorter.update(k, shorter[k].drawn_as(Mode::Hidden)));
    } else {
        assert(hidden.drop_last() =~= shorter);
    }
}

/// With everything hidden nothing is drawn.
pub proof fn law_all_hidden_nothing_drawn(categories: Seq<Category>)
    requires
        forall|k: int| 0 <= k < categories.len() ==> (#[trigger] categories[k]).mode == Mode::Hidden,
    ensures
        drawn_instances(categories) == 0,
        drawn_triangles(categories) == 0,
    decreases categories.len(),
{
    if categories.len() > 0 {
        let shorter = categories.drop_last();
        assert forall|k: int| 0 <= k < shorter.len() implies (#[trigger] shorter[k]).mode
            == Mode::Hidden by {
            assert(shorter[k] == categories[k]);
        }
        law_all_hidden_nothing_drawn(shorter);
        assert(categories[categories.len() - 1].mode == Mode::Hidden);
    }
}

/// Drawing a category another way changes how it is drawn and nothing else.
pub proof fn law_restyling_changes_the_mode_alone(category: Category, mode: Mode)
    ensures
        ({
            let other = category.drawn_as(mode);
            &&& other.mode == mode
            &&& other.id == category.id
            &&& other.label == category.label
            &&& other.colour == category.colour
            &&& other.instances == category.instances
            &&& other.drawable == category.drawable
            &&& other.triangles == category.triangles
        }),
{
}

/// The box of what is visible is the smallest there is: it reaches as far down
/// and up as everything in a category that is not hidden, and each side is where
/// something visible ends, unless nothing visible ends at a number.
pub proof fn law_the_visible_box_is_tight(c: &Classification, scene: &Scene, axis: int, id: int)
    requires
        c.of_instance@.len() == scene.instances@.len(),
        forall|j: int|
            0 <= j < c.of_instance@.len() ==> (#[trigger] c.of_instance@[j]) < c.categories@.len(),
        0 <= axis < 3,
        0 <= id < scene.instances@.len(),
        c.categories@[c.of_instance@[id] as int].mode != Mode::Hidden,
    ensures
        ({
            let n = scene.instances@.len();
            let low = c.lowest(scene, axis, n);
            let high = c.highest(scene, axis, n);
            &&& !scene.instances@[id].aabb_min[axis].nan() ==> value(low) <= value(
                scene.instances@[id].aabb_min[axis],
            )
            &&& !scene.instances@[id].aabb_max[axis].nan() ==> value(scene.instances@[id].aabb_max[axis])
                <= value(high)
            &&& low.bits == 0x7F80_0000 || exists|j: int|
                {
                    &&& 0 <= j < n
                    &&& c.categories@[c.of_instance@[j] as int].mode != Mode::Hidden
                    &&& (#[trigger] scene.instances@[j]).aabb_min[axis] == low
                }
            &&& high.bits == 0xFF80_0000 || exists|j: int|
                {
                    &&& 0 <= j < n
                    &&& c.categories@[c.of_instance@[j] as int].mode != Mode::Hidden
                    &&& (#[trigger] scene.instances@[j]).aabb_max[axis] == high
                }
        }),
{
    let n = scene.instances@.len();
    assert(c.of_instance@[id] < c.categories@.len());
    assert(c.shows(id));
    lemma_lowest_is_a_number(c, scene, axis, n);
    lemma_highest_is_a_number(c, scene, axis, n);
    if !scene.instances@[id].aabb_min[axis].nan() {
        law_visible_bounds_cover_from_below(c, scene, axis, n, id);
        law_numbers_are_ordered_by_value(
            c.lowest(scene, axis, n),
            scene.instances@[id].aabb_min[axis],
        );
    }
    if !scene.instances@[id].aabb_max[axis].nan() {
        law_visible_bounds_cover_from_above(c, scene, axis, n, id);
        law_numbers_are_ordered_by_value(
            scene.instances@[id].aabb_max[axis],
            c.highest(scene, axis, n),
        );
    }
    lemma_bounds_are_reached(c, scene, axis, n);
}

proof fn lemma_bounds_are_reached(c: &Classification, scene: &Scene, axis: int, n: nat)
    requires
        c.of_instance@.len() == scene.instances@.len(),
        forall|j: int|
            0 <= j < c.of_instance@.len() ==> (#[trigger] c.of_instance@[j]) < c.categories@.len(),
        n <= scene.instances@.len(),
    ensures
        c.lowest(scene, axis, n).bits == 0x7F80_0000 || exists|j: int|
            {
                &&& 0 <= j < n
                &&& c.categories@[c.of_instance@[j] as int].mode != Mode::Hidden
                &&& (#[trigger] scene.instances@[j]).aabb_min[axis] == c.lowest(scene, axis, n)
            },
        c.highest(scene, axis, n).bits == 0xFF80_0000 || exists|j: int|
            {
                &&& 0 <= j < n
                &&& c.categories@[c.of_instance@[j] as int].mode != Mode::Hidden
                &&& (#[trigger] scene.instances@[j]).aabb_max[axis] == c.highest(scene, axis, n)
            },
    decreases n,
{
    if n > 0 {
        lemma_bounds_are_reached(c, scene, axis, (n - 1) as nat);
        assert(c.of_instance@[n - 1] < c.categories@.len());
        let last = scene.instances@[n - 1];
    }
}

/// An instance is drawn the way its category is.
pub proof fn law_an_instance_is_drawn_as_its_category(c: &Classification, id: int)
    requires
        0 <= id < c.of_instance@.len(),
        c.of_instance@[id] < c.categories@.len(),
    ensures
        c.mode_at(id) == c.categories@[c.of_instance@[id] as int].mode,
        c.shows(id) <==> c.categories@[c.of_instance@[id] as int].mode != Mode::Hidden,
{
}

/// Every category of a classification carries its own row of the table and
/// counts the instances assigned to it, all of them and those with indices.
pub proof fn law_the_counts_of_a_category(scene: &Scene, c: &Classification, k: int)
    requires
        c.counts(scene),
        0 <= k < COUNT,
    ensures
        c.categories@.len() == 12,
        c.of_instance@.len() == scene.instances@.len(),
        c.categories@[k].id@ == DEFS[k][0]@,
        c.categories@[k].label@ == DEFS[k][1]@,
        c.categories@[k].instances == Set::new(
            |id: int| 0 <= id < scene.instances@.len() && c.of_instance@[id] == k,
        ).len(),
        c.categories@[k].drawable == Set::new(
            |id: int|
                0 <= id < scene.instances@.len() && c.of_instance@[id] == k
                    && scene.instances@[id].index_count > 0,
        ).len(),
        c.categories@[k].triangles == triangle_tally(scene.instances@, c.of_instance@, k),
        forall|id: int| 0 <= id < c.of_instance@.len() ==> (#[trigger] c.of_instance@[id]) < 12,
{
    law_a_category_counts_its_instances(c.of_instance@, k);
    law_a_category_counts_what_can_be_drawn(scene.instances@, c.of_instance@, k);
    assert(c.categories@[k].instances == tally(c.of_instance@, k));
    assert(Set::new(|id: int| 0 <= id < c.of_instance@.len() && c.of_instance@[id] == k) =~= Set::new(
        |id: int| 0 <= id < scene.instances@.len() && c.of_instance@[id] == k,
    ));
    assert(Set::new(
        |id: int|
            0 <= id < c.of_instance@.len() && c.of_instance@[id] == k && scene.instances@[id].index_count
                > 0,
    ) =~= Set::new(
        |id: int|
            0 <= id < scene.instances@.len() && c.of_instance@[id] == k
                && scene.instances@[id].index_count > 0,
    ));
}

/// A category that starts as the table says has the table's mode and colour.
pub proof fn law_a_category_starts_as_the_table_says(category: Category, k: int, channel: int)
    requires
        0 <= k < COUNT,
        0 <= channel < 3,
        category.starts_as(k),
    ensures
        category.id@ == DEFS[k][0]@,
        category.label@ == DEFS[k][1]@,
        category.mode == MODES[k],
        category.colour[channel].bits == COLOURS[k][channel],
{
}

/// Cables, lights and clutter start out hidden; the access steel, the building
/// and what is unclassified start out as ghosts; all the rest starts out solid.
pub proof fn law_how_categories_start_out(k: int)
    requires
        0 <= k < COUNT,
    ensures
        MODES[k] == Mode::Hidden <==> DEFS[k][0]@ == "cabling"@ || DEFS[k][0]@ == "lighting"@
            || DEFS[k][0]@ == "clutter"@,
        MODES[k] == Mode::Ghosted <==> DEFS[k][0]@ == "access"@ || DEFS[k][0]@ == "structure"@
            || DEFS[k][0]@ == "other"@,
{
    assert(DEFS[6][0]@ == "cabling"@ && DEFS[8][0]@ == "lighting"@ && DEFS[10][0]@ == "clutter"@);
    assert(DEFS[7][0]@ == "access"@ && DEFS[9][0]@ == "structure"@ && DEFS[11][0]@ == "other"@);
    if DEFS[k][0]@ == "cabling"@ {
        law_category_ids_are_unique(k, 6);
    }
    if DEFS[k][0]@ == "lighting"@ {
        law_category_ids_are_unique(k, 8);
    }
    if DEFS[k][0]@ == "clutter"@ {
        law_category_ids_are_unique(k, 10);
    }
    if DEFS[k][0]@ == "access"@ {
        law_category_ids_are_unique(k, 7);
    }
    if DEFS[k][0]@ == "structure"@ {
        law_category_ids_are_unique(k, 9);
    }
    if DEFS[k][0]@ == "other"@ {
        law_category_ids_are_unique(k, 11);
    }
}

/// No two categories are drawn in the same colour.
pub proof fn law_category_colours_differ(a: int, b: int)
    requires
        0 <= a < b < COUNT,
    ensures
        COLOURS[a][0] != COLOURS[b][0] || COLOURS[a][1] != COLOURS[b][1] || COLOURS[a][2]
            != COLOURS[b][2],
{
}

/// Changing the modes of a classification leaves everything else as it was.
pub proof fn law_what_differs_in_modes_only(after: &Classification, before: &Classification, k: int)
    requires
        after.differs_in_modes_only(before),
        0 <= k < before.categories@.len(),
    ensures
        after.of_instance == before.of_instance,
        after.categories@.len() == before.categories@.len(),
        after.categories@[k].id == before.categories@[k].id,
        after.categories@[k].label == before.categories@[k].label,
        after.categories@[k].colour == before.categories@[k].colour,
        after.categories@[k].instances == before.categories@[k].instances,
        after.categories@[k].drawable == before.categories@[k].drawable,
        after.categories@[k].triangles == before.categories@[k].triangles,
{
    assert(after.categories@[k] == before.categories@[k].drawn_as(after.categories@[k].mode));
}

/// The channels of the colours in hundredths, category by category.
pub const HUNDREDTHS: [[u32; 3]; 12] = [
    [100, 34, 10],
    [30, 58, 100],
    [20, 90, 55],
    [25, 85, 92],
    [78, 45, 100],
    [100, 82, 20],
    [85, 60, 30],
    [55, 62, 72],
    [95, 90, 70],
    [50, 56, 66],
    [40, 42, 48],
    [45, 48, 55],
];

/// Two to the power of 23 and so many more.
pub open spec fn scale(more: int) -> int {
    if more == 0 {
        0x80_0000
    } else if more == 1 {
        0x100_0000
    } else if more == 2 {
        0x200_0000
    } else if more == 3 {
        0x400_0000
    } else {
        0x800_0000
    }
}

/// The bits of every channel are those of the single that is nearest to its
/// hundredths: with the exponent that they have, no other fraction comes closer.
pub proof fn law_colours_are_hundredths(k: int, channel: int)
    requires
        0 <= k < COUNT,
        0 <= channel < 3,
    ensures
        ({
            let bits = COLOURS[k][channel] as int;
            let exponent = bits / 0x80_0000;
            let mantissa = 0x80_0000 + bits % 0x80_0000;
            let wanted = HUNDREDTHS[k][channel] * scale(127 - exponent);
            &&& 123 <= exponent <= 127
            &&& -50 <= 100 * mantissa - wanted <= 50
        }),
{
}

/// The table compiles when every pattern in it does.
pub proof fn law_when_the_table_compiles()
    ensures
        table_compiles() <==> forall|k: int| 0 <= k < PATTERNED ==> compiles(#[trigger] DEFS[k][2]@),
{
}

/// The categories stand in the order of their keys, from the process plant to
/// what is unclassified.
pub proof fn law_the_order_of_the_categories(k: int)
    requires
        0 <= k < COUNT,
    ensures
        k == 0 ==> DEFS[k][0]@ == "pipe"@ && DEFS[k][1]@ == "Pipework"@,
        k == 1 ==> DEFS[k][0]@ == "duct"@ && DEFS[k][1]@ == "HVAC ducting"@,
        k == 2 ==> DEFS[k][0]@ == "vessel"@ && DEFS[k][1]@ == "Vessels & tanks"@,
        k == 3 ==> DEFS[k][0]@ == "machinery"@ && DEFS[k][1]@ == "Machinery"@,
        k == 4 ==> DEFS[k][0]@ == "instrument"@ && DEFS[k][1]@ == "Instrumentation"@,
        k == 5 ==> DEFS[k][0]@ == "electrical"@ && DEFS[k][1]@ == "Electrical"@,
        k == 6 ==> DEFS[k][0]@ == "cabling"@ && DEFS[k][1]@ == "Cable runs"@,
        k == 7 ==> DEFS[k][0]@ == "access"@ && DEFS[k][1]@ == "Access steel"@,
        k == 8 ==> DEFS[k][0]@ == "lighting"@ && DEFS[k][1]@ == "Lighting"@,
        k == 9 ==> DEFS[k][0]@ == "structure"@ && DEFS[k][1]@ == "Building fabric"@,
        k == 10 ==> DEFS[k][0]@ == "clutter"@ && DEFS[k][1]@ == "Clutter & props"@,
        k == 11 ==> DEFS[k][0]@ == "other"@ && DEFS[k][1]@ == "Unclassified"@,
{
}

} // verus!
