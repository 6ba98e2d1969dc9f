use plant::category::{Classification, Mode, COUNT, DEFS, PATTERNED};
use plant::pattern::choice;
use plant::scene::{Instance, Material, Scene};
use plant::single::{Single, INFINITY, NEG_INFINITY};
use regex::Regex;

fn single(x: f32) -> Single {
    Single { bits: x.to_bits() }
}

fn triple(x: f32, y: f32, z: f32) -> [Single; 3] {
    [single(x), single(y), single(z)]
}

fn instance(name: &str, material: u32, index_count: u32, low: f32, high: f32) -> Instance {
    Instance {
        first_index: 0,
        index_count,
        base_vertex: 0,
        material,
        name: name.to_string(),
        transform: [single(0.0); 12],
        aabb_min: triple(low, low, low),
        aabb_max: triple(high, high, high),
    }
}

fn scene_of(instances: Vec<Instance>, materials: &[&str]) -> Scene {
    Scene {
        instances,
        materials: materials
            .iter()
            .map(|name| Material {
                name: (*name).to_string(),
                colour: [single(0.5), single(0.5), single(0.5), single(1.0)],
            })
            .collect(),
        vertices: Vec::new(),
        indices: Vec::new(),
        scene_min: triple(-100.0, -100.0, -100.0),
        scene_max: triple(100.0, 100.0, 100.0),
        bake_hash: 7,
        byte_len: 0,
    }
}

/// A pipe, a concrete wall, a chain-link fence and something unheard of.
fn small_scene() -> Scene {
    scene_of(
        vec![
            instance("", 0, 30, -1.0, 1.0),
            instance("", 1, 12, -5.0, 2.0),
            instance("", 2, 7, -50.0, 50.0),
            instance("", 3, 9, -2.0, 8.0),
        ],
        &[
            "materials/models/props/de_nuke/hr_nuke/metal_pipe_001/metal_pipe_001.vmat",
            "materials/concrete/hr_concrete_wall_001b.vmat",
            "materials/models/props/de_nuke/hr_nuke/chainlink_fence_001.vmat",
            "materials/models/props/de_nuke/hr_nuke/mystery_thing.vmat",
        ],
    )
}

fn mode_of(classification: &Classification, id: &str) -> Mode {
    let at = classification.index_of(id).expect("a category");
    classification.categories[at].mode
}

#[test]
fn category_every_pattern_compiles() {
    for def in &DEFS[..PATTERNED] {
        assert!(Regex::new(def[2]).is_ok(), "{} does not compile", def[0]);
    }
}

#[test]
fn category_ids_are_unique() {
    let mut ids: Vec<&str> = DEFS.iter().map(|d| d[0]).collect();
    let count = ids.len();
    assert_eq!(count, COUNT);
    ids.sort_unstable();
    ids.dedup();
    assert_eq!(ids.len(), count, "duplicate category id");
}

/// Order matters: the reactor vessel head must not be swallowed by a broader
/// pattern sitting above it.
#[test]
fn the_first_matching_category_wins_in_definition_order() {
    let classify = |path: &str| -> &str {
        let scene = scene_of(vec![instance("", 0, 3, 0.0, 1.0)], &[path]);
        let classification = Classification::new(&scene).expect("classify");
        classification.category_of(0).id
    };

    assert_eq!(
        classify("materials/models/props/de_nuke/hr_nuke/metal_pipe_001/metal_pipe_001.vmat"),
        "pipe"
    );
    assert_eq!(
        classify("materials/models/props/de_nuke/hr_nuke/nuke_reactor_vessel_head/nuke_reactor_vessel_head_color.vmat"),
        "vessel"
    );
    assert_eq!(
        classify("materials/models/props/de_nuke/hr_nuke/airduct_hvac_001/airduct_hvac_001.vmat"),
        "duct"
    );
    // The machinery props are pressure vessels and a motor, and the gas meter
    // is a domestic one: neither is instrumentation.
    assert_eq!(
        classify("materials/models/props/de_nuke/hr_nuke/nuke_machinery/nuke_machinery_05_color.vmat"),
        "machinery"
    );
    assert_ne!(
        classify("materials/models/props/de_nuke/hr_nuke/gas_meter/gas_meter_color.vmat"),
        "instrument",
        "a domestic gas meter is not plant instrumentation"
    );
    assert_eq!(
        classify("materials/models/props/de_nuke/hr_nuke/gas_meter/gas_meter_pipes_color.vmat"),
        "pipe"
    );
    assert_eq!(
        classify("materials/models/props/de_nuke/hr_nuke/wires_001/wires_001.vmat"),
        "cabling"
    );
    assert_eq!(classify("materials/concrete/hr_concrete_wall_001b.vmat"), "structure");
    assert_eq!(
        classify("materials/models/props/de_nuke/hr_nuke/chainlink_fence_001.vmat"),
        "clutter"
    );
    assert_eq!(classify("materials/models/props/de_nuke/hr_nuke/mystery_thing.vmat"), "other");
}

#[test]
fn modes_cycle_back_to_where_they_started() {
    let mut mode = Mode::Solid;
    for _ in 0..3 {
        mode = mode.next();
    }
    assert_eq!(mode, Mode::Solid);
}

#[test]
fn each_mode_has_a_letter_of_its_own() {
    assert_eq!(Mode::Solid.tag(), "S");
    assert_eq!(Mode::Ghosted.tag(), "G");
    assert_eq!(Mode::Hidden.tag(), "H");
}

/// The material path names the art kit, and so decides before the model does,
/// even where an earlier pattern matches the model.
#[test]
fn the_material_decides_before_the_model() {
    let cable = "materials/models/props/de_nuke/hr_nuke/wires_001/wires_001.vmat";
    let scene = scene_of(
        vec![
            instance("metal_pipe_001", 0, 3, 0.0, 1.0),
            instance("metal_pipe_001", 1, 3, 0.0, 1.0),
        ],
        &[cable, "materials/models/props/de_nuke/hr_nuke/mystery_thing.vmat"],
    );
    let classification = Classification::new(&scene).expect("classify");
    assert_eq!(classification.category_of(0).id, "cabling");
    assert_eq!(classification.category_of(1).id, "pipe");
    assert_eq!(choice(&vec![false, true], &vec![true, true]), 1);
    assert_eq!(choice(&vec![false, false], &vec![false, true]), 1);
    assert_eq!(choice(&vec![false, false], &vec![false, false]), 2);
}

#[test]
fn the_model_name_counts_when_the_material_says_nothing() {
    let scene = scene_of(vec![instance("metal_ladder_128", 9, 3, 0.0, 1.0)], &[]);
    let classification = Classification::new(&scene).expect("classify");
    assert_eq!(classification.category_of(0).id, "access");
}

#[test]
fn every_instance_is_counted_once() {
    let classification = Classification::new(&small_scene()).expect("classify");
    let landed: u32 = classification.categories.iter().map(|c| c.instances).sum();
    let triangles: u64 = classification.categories.iter().map(|c| c.triangles).sum();
    assert_eq!(landed, 4);
    assert_eq!(triangles, 10 + 4 + 2 + 3);
    let pipe = classification.index_of("pipe").expect("pipe");
    assert_eq!(classification.categories[pipe].instances, 1);
    assert_eq!(classification.categories[pipe].triangles, 10);
    assert_eq!(classification.categories[pipe].label, "Pipework");
    assert_eq!(classification.categories[pipe].colour[0], single(1.00));
    assert_eq!(classification.categories[pipe].colour[1], single(0.34));
    assert_eq!(classification.categories[pipe].colour[2], single(0.10));
}

#[test]
fn categories_start_out_as_the_table_says() {
    let classification = Classification::new(&small_scene()).expect("classify");
    assert_eq!(mode_of(&classification, "pipe"), Mode::Solid);
    assert_eq!(mode_of(&classification, "electrical"), Mode::Solid);
    assert_eq!(mode_of(&classification, "cabling"), Mode::Hidden);
    assert_eq!(mode_of(&classification, "structure"), Mode::Ghosted);
    assert_eq!(mode_of(&classification, "other"), Mode::Ghosted);
    assert!(classification.index_of("pipework").is_none());
}

#[test]
fn the_presets_set_every_category() {
    let mut classification = Classification::new(&small_scene()).expect("classify");
    classification.preset_plant();
    assert_eq!(mode_of(&classification, "machinery"), Mode::Solid);
    for category in &classification.categories {
        let process = ["pipe", "duct", "vessel", "machinery", "instrument"].contains(&category.id);
        let expected = if process { Mode::Solid } else { Mode::Ghosted };
        assert_eq!(category.mode, expected, "{}", category.id);
    }
    classification.preset_pipes_only();
    assert_eq!(mode_of(&classification, "pipe"), Mode::Solid);
    assert_eq!(mode_of(&classification, "instrument"), Mode::Solid);
    assert_eq!(mode_of(&classification, "vessel"), Mode::Hidden);
    classification.preset_everything();
    assert!(classification.categories.iter().all(|c| c.mode == Mode::Solid));
    classification.set_all(Mode::Hidden);
    assert!(classification.categories.iter().all(|c| c.mode == Mode::Hidden));
}

#[test]
fn bulk_ghosting_leaves_the_rest_alone() {
    let mut classification = Classification::new(&small_scene()).expect("classify");
    classification.preset_pipes_only();
    classification.ghost_hidden();
    assert_eq!(mode_of(&classification, "electrical"), Mode::Ghosted);
    assert_eq!(mode_of(&classification, "pipe"), Mode::Solid);
    classification.hide_ghosted();
    assert_eq!(mode_of(&classification, "electrical"), Mode::Hidden);
    assert_eq!(mode_of(&classification, "structure"), Mode::Hidden);
    assert_eq!(mode_of(&classification, "pipe"), Mode::Solid);
}

#[test]
fn what_is_drawn_is_what_is_not_hidden() {
    let mut classification = Classification::new(&small_scene()).expect("classify");
    // The fence is clutter, which starts out hidden.
    assert_eq!(classification.drawn(), (3, 10 + 4 + 3));
    classification.preset_plant();
    assert_eq!(classification.drawn(), (4, 10 + 4 + 2 + 3));
    classification.set_all(Mode::Hidden);
    assert_eq!(classification.drawn(), (0, 0));
}

#[test]
fn an_instance_without_indices_is_counted_but_not_drawn() {
    let mut scene = small_scene();
    scene.instances[0].index_count = 0;
    let mut classification = Classification::new(&scene).expect("classify");
    classification.preset_everything();
    assert_eq!(classification.categories[0].instances, 1);
    assert_eq!(classification.categories[0].drawable, 0);
    assert_eq!(classification.categories[0].triangles, 0);
    assert_eq!(classification.drawn(), (3, 4 + 2 + 3));
}

#[test]
fn visible_bounds_leave_out_what_is_hidden() {
    let scene = small_scene();
    let mut classification = Classification::new(&scene).expect("classify");
    let (low, high) = classification.visible_bounds(&scene);
    assert_eq!(low, triple(-5.0, -5.0, -5.0));
    assert_eq!(high, triple(8.0, 8.0, 8.0));
    // With nothing on show the whole scene is what there is to frame.
    classification.set_all(Mode::Hidden);
    let (low, high) = classification.visible_bounds(&scene);
    assert_eq!(low, scene.scene_min);
    assert_eq!(high, scene.scene_max);
}

#[test]
fn an_instance_out_of_range_belongs_to_the_first_category() {
    let classification = Classification::new(&small_scene()).expect("classify");
    assert_eq!(classification.category_of(4_000).id, "pipe");
}

#[test]
fn an_assignment_can_be_given_outright() {
    let scene = small_scene();
    let classification = Classification::from_assignment(&scene, vec![2, 2, 0, 11]);
    assert_eq!(classification.category_of(0).id, "vessel");
    assert_eq!(classification.categories[2].instances, 2);
    assert_eq!(classification.categories[2].triangles, 14);
}

#[test]
fn singles_are_ordered_as_their_values_are() {
    let values = [f32::NEG_INFINITY, -2.5, -0.0, 0.0, 1.0e-40, 0.34, 320.0, f32::INFINITY];
    for a in values {
        for b in values {
            assert_eq!(single(a).lt(single(b)), a < b, "{a} < {b}");
            assert_eq!(single(a).le(single(b)), a <= b, "{a} <= {b}");
            assert_eq!(
                single(a).before(single(b)),
                a.total_cmp(&b) == std::cmp::Ordering::Less,
                "{a} before {b}"
            );
            assert_eq!(f32::from_bits(single(a).min(single(b)).bits), a.min(b));
            assert_eq!(f32::from_bits(single(a).max(single(b)).bits), a.max(b));
        }
        assert!(!single(a).lt(single(f32::NAN)));
        assert!(!single(f32::NAN).le(single(a)));
        assert_eq!(single(a).min(single(f32::NAN)), single(a));
        assert_eq!(single(f32::NAN).max(single(a)), single(a));
        assert_eq!(
            f32::from_bits(single(a).clamp(single(0.02), single(4.0)).bits),
            a.clamp(0.02, 4.0)
        );
    }
    assert!(single(f32::NAN).is_nan() && !single(f32::INFINITY).is_nan());
    assert_eq!(single(f32::INFINITY).bits, INFINITY);
    assert_eq!(single(f32::NEG_INFINITY).bits, NEG_INFINITY);
}
