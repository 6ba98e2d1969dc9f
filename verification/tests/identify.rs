use plant::identify::{entries, identify_all, identify_instance, Confidence, Identifier};
use plant::scene::{Instance, Material, Scene};
use plant::single::Single;

fn single(x: f32) -> Single {
    Single { bits: x.to_bits() }
}

fn scene_of(props: &[(&str, &str)]) -> Scene {
    let instances = props
        .iter()
        .enumerate()
        .map(|(k, (_, model))| Instance {
            first_index: 0,
            index_count: 3,
            base_vertex: 0,
            material: k as u32,
            name: (*model).to_string(),
            transform: [single(0.0); 12],
            aabb_min: [single(0.0); 3],
            aabb_max: [single(1.0); 3],
        })
        .collect();
    let materials = props
        .iter()
        .map(|(path, _)| Material {
            name: (*path).to_string(),
            colour: [single(0.5); 4],
        })
        .collect();
    Scene {
        instances,
        materials,
        vertices: Vec::new(),
        indices: Vec::new(),
        scene_min: [single(0.0); 3],
        scene_max: [single(1.0); 3],
        bake_hash: 0,
        byte_len: 0,
    }
}

#[test]
fn identify_every_pattern_compiles() {
    assert!(Identifier::new().is_ok());
}

#[test]
fn the_reactor_vessel_head_is_identified_not_guessed() {
    let id = Identifier::new().expect("compile");
    let entry = id
        .lookup(
            "materials/models/props/de_nuke/hr_nuke/nuke_reactor_vessel_head/nuke_reactor_vessel_head_color.vmat",
            "",
        )
        .expect("should be identified");
    assert_eq!(entry.confidence, Confidence::Identified);
    assert!(entry.real.contains("RPV head"));
}

/// The large shell must not be swallowed by the `nuke_silo_001` pattern.
#[test]
fn the_large_shell_matches_before_the_small_one() {
    let id = Identifier::new().expect("compile");
    let large = id
        .lookup("materials/models/props/de_nuke/hr_nuke/nuke_silo/nuke_silo_001b.vmat", "")
        .expect("large shell");
    assert!(large.what.contains("cylindrical skirt"), "{}", large.what);
}

/// The things that would embarrass the narration must be flagged, not quietly
/// labelled as if they fit.
#[test]
fn contradictions_are_marked_as_mismatches() {
    let id = Identifier::new().expect("compile");
    for path in [
        "materials/models/props/de_nuke/hr_nuke/gas_meter/gas_meter_01_color.vmat",
        "materials/models/props/de_nuke/hr_nuke/nuke_control_room/control_room_displays_color.vmat",
        "materials/models/props/de_nuke/hr_nuke/nuke_silo/nuke_silo_001b.vmat",
        "materials/models/props/de_nuke/hr_nuke/nuke_industrial_props/nuke_industrial_props_001.vmat",
    ] {
        let entry = id.lookup(path, "").unwrap_or_else(|| panic!("no entry for {path}"));
        assert_eq!(
            entry.confidence,
            Confidence::Mismatch,
            "{path} should be flagged as a mismatch"
        );
    }
}

/// The material path says what a prop is; the model only counts where the path
/// says nothing.
#[test]
fn the_material_names_a_prop_before_the_model_does() {
    let id = Identifier::new().expect("compile");
    let pipe = "materials/models/props/de_nuke/hr_nuke/metal_pipe_001/metal_pipe_001.vmat";
    let entry = id.lookup(pipe, "gas_meter").expect("a pipe");
    assert_eq!(entry.what, "Modular pipe kit");
    let entry = id.lookup("materials/plain.vmat", "gas_meter").expect("a meter");
    assert_ne!(entry.what, "Modular pipe kit");
}

#[test]
fn an_unknown_prop_returns_nothing_rather_than_a_guess() {
    let id = Identifier::new().expect("compile");
    assert!(id.lookup("materials/concrete/hr_concrete_wall_001b.vmat", "").is_none());
}

/// Every reference was resolved before it was written down. This pins the shape
/// so a hand-typed or half-remembered URL cannot creep in later: anything that
/// is not a Commons `File:` or `Category:` page did not come from that check.
#[test]
fn every_reference_is_a_checked_commons_page() {
    const PREFIX: &str = "https://commons.wikimedia.org/wiki/";
    for entry in entries() {
        for reference in &entry.refs {
            let rest = reference
                .url
                .strip_prefix(PREFIX)
                .unwrap_or_else(|| panic!("{} is not a Commons page: {}", entry.pattern, reference.url));
            assert!(
                rest.starts_with("File:") || rest.starts_with("Category:"),
                "{} links to {rest}, which is neither a file nor a category",
                entry.pattern
            );
            assert!(
                !reference.label.is_empty(),
                "{} has an unlabelled link",
                entry.pattern
            );
            // A space would break the URL; Commons titles use underscores.
            assert!(
                !reference.url.contains(' '),
                "{} has a space in {}",
                entry.pattern,
                reference.url
            );
        }
    }
}

/// The point of the whole table is that a viewer can go and look at the real
/// thing. If a prop is *identified*, the strongest claim on offer, there has to
/// be something to look at.
#[test]
fn identified_props_all_have_a_picture_of_the_real_unit() {
    for entry in entries() {
        if entry.confidence == Confidence::Identified {
            assert!(
                !entry.refs.is_empty(),
                "{} is claimed as identified but links to no real unit",
                entry.pattern
            );
        }
    }
}

/// The nearest photograph of the RPV head is of the wrong reactor type. That has
/// to stay visible in the link text, not be smoothed over into "reactor vessel
/// heads".
#[test]
fn the_wrong_reactor_type_is_admitted_in_the_link_text() {
    let id = Identifier::new().expect("compile");
    let entry = id
        .lookup("materials/models/props/de_nuke/hr_nuke/nuke_reactor_vessel_head/x.vmat", "")
        .expect("head");
    assert!(
        entry.refs.iter().any(|r| r.label.contains("not BWR")),
        "the PWR photograph must be labelled as a PWR photograph"
    );
}

#[test]
fn instances_are_identified_by_material_or_model() {
    let scene = scene_of(&[
        ("materials/models/props/de_nuke/hr_nuke/nuke_reactor_vessel_head/x.vmat", ""),
        ("materials/concrete/hr_concrete_wall_001b.vmat", ""),
        ("", "gas_meter_01"),
    ]);
    let id = Identifier::new().expect("compile");
    let all = identify_all(&scene, &id);
    assert_eq!(all.len(), 3);
    assert!(id.entry(all[0].expect("head")).real.contains("RPV head"));
    assert!(all[1].is_none());
    assert_eq!(id.entry(all[2].expect("meter")).confidence, Confidence::Mismatch);
    for (k, found) in all.iter().enumerate() {
        assert_eq!(identify_instance(&scene, &id, k), *found);
    }
    assert!(identify_instance(&scene, &id, 3).is_none());
}

#[test]
fn the_table_is_read_whole() {
    let id = Identifier::new().expect("compile");
    let table = entries();
    assert_eq!(id.len(), 33);
    assert_eq!(table.len(), 33);
    assert_eq!(id.reference_count(), 50);
    assert_eq!(table.iter().map(|e| e.refs.len()).sum::<usize>(), 50);
}

#[test]
fn each_confidence_has_its_tag_and_colour() {
    assert_eq!(Confidence::Identified.tag(), "IDENTIFIED");
    assert_eq!(Confidence::Identified.colour(), [90, 210, 140]);
    assert_eq!(Confidence::Mismatch.tag(), "MISMATCH");
}
