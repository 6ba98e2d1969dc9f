use plant::category::{Classification, Mode};
use plant::export::{subset, summary, Kept, NothingToExport, Subset, Summary};
use plant::file::{header_of, plan_for, to_bytes, Plan, Section};
use plant::scene::{Instance, Material, Scene};
use plant::single::Single;

fn single(x: f32) -> Single {
    Single { bits: x.to_bits() }
}

fn instance(range: (u32, u32, u32), material: u32, name: &str, low: f32, high: f32) -> Instance {
    Instance {
        first_index: range.0,
        index_count: range.1,
        base_vertex: range.2,
        material,
        name: name.to_string(),
        transform: [single(0.0); 12],
        aabb_min: [single(low); 3],
        aabb_max: [single(high); 3],
    }
}

fn vertex(n: u32) -> [u32; 8] {
    std::array::from_fn(|k| 100 * n + k as u32)
}

/// Two placements of one pipe, a wall, and a pipe of its own.
fn scene() -> Scene {
    Scene {
        instances: vec![
            instance((0, 3, 0), 1, "pipe_a", -1.0, 1.0),
            instance((3, 6, 2), 0, "wall", -50.0, 50.0),
            instance((0, 3, 0), 1, "pipe_b", 2.0, 3.0),
            instance((9, 3, 4), 7, "pipé", -4.0, 0.5),
        ],
        materials: vec![
            Material { name: "concrete".to_string(), colour: [single(0.1); 4] },
            Material { name: "steel".to_string(), colour: [single(0.9); 4] },
        ],
        vertices: (0..10).map(vertex).collect(),
        // The pipe touches vertices 1 to 3, and the last one 4 + 2, 4 + 3 and 4 + 5.
        indices: vec![3, 1, 2, 0, 1, 2, 0, 2, 3, 5, 2, 3],
        scene_min: [single(-50.0); 3],
        scene_max: [single(50.0); 3],
        bake_hash: 0xfeed,
        byte_len: 4_096,
    }
}

fn pipes_only(scene: &Scene) -> Classification {
    let mut classification = Classification::from_assignment(scene, vec![0, 9, 0, 0]);
    classification.preset_pipes_only();
    classification
}

/// The vertices that an instance draws, one for each index.
fn drawn(vertices: &[[u32; 8]], indices: &[u32], first: u32, count: u32, base: u32) -> Vec<[u32; 8]> {
    indices[first as usize..(first + count) as usize]
        .iter()
        .map(|i| vertices[(base + i) as usize])
        .collect()
}

fn text(cut: &Subset, offset: u32, len: u32) -> String {
    let bytes = cut.strings[offset as usize..(offset + len) as usize].to_vec();
    String::from_utf8(bytes).expect("a name")
}

#[test]
fn what_is_hidden_is_cut_away() {
    let scene = scene();
    let cut = subset(&scene, &pipes_only(&scene)).expect("three pipes");
    let sources: Vec<usize> = cut.instances.iter().map(|k| k.source).collect();
    assert_eq!(sources, vec![0, 2, 3]);
    assert_eq!(cut.vertices, [1, 2, 3, 6, 7, 9].map(vertex).to_vec());
    assert_eq!(cut.indices, vec![2, 0, 1, 2, 0, 1]);
    assert_eq!(cut.scene_min, [single(-4.0); 3]);
    assert_eq!(cut.scene_max, [single(3.0); 3]);
}

#[test]
fn every_instance_still_draws_what_it_drew() {
    let scene = scene();
    let cut = subset(&scene, &pipes_only(&scene)).expect("three pipes");
    for kept in &cut.instances {
        let whole = &scene.instances[kept.source];
        assert_eq!(
            drawn(&cut.vertices, &cut.indices, kept.first_index, whole.index_count, kept.base_vertex),
            drawn(&scene.vertices, &scene.indices, whole.first_index, whole.index_count, whole.base_vertex),
        );
    }
}

#[test]
fn shared_geometry_is_stored_once() {
    let scene = scene();
    let cut = subset(&scene, &pipes_only(&scene)).expect("three pipes");
    let [a, b, c] = cut.instances[..] else {
        panic!("three instances");
    };
    assert_eq!((a.first_index, a.base_vertex), (b.first_index, b.base_vertex));
    assert_eq!((c.first_index, c.base_vertex), (3, 3));
}

#[test]
fn names_and_materials_travel_along() {
    let scene = scene();
    let cut = subset(&scene, &pipes_only(&scene)).expect("three pipes");
    let names: Vec<String> = cut.instances.iter().map(|k| text(&cut, k.name_offset, k.name_len)).collect();
    assert_eq!(names, vec!["pipe_a", "pipe_b", "pipé"]);
    assert_eq!(
        cut.instances[0],
        Kept { source: 0, first_index: 0, base_vertex: 0, material: 0, name_offset: 5, name_len: 6 }
    );
    assert_eq!(cut.instances.iter().map(|k| k.material).collect::<Vec<_>>(), vec![0, 0, 1]);
    assert_eq!(cut.materials.len(), 2);
    assert_eq!(text(&cut, cut.materials[0].name_offset, cut.materials[0].name_len), "steel");
    assert_eq!(cut.materials[0].colour, [single(0.9); 4]);
    // A material that the scene does not have is grey and has no name.
    assert_eq!(cut.materials[1].name_len, 0);
    assert_eq!(
        cut.materials[1].colour,
        [single(0.5), single(0.5), single(0.5), single(1.0)]
    );
}

#[test]
fn what_cannot_be_read_is_skipped() {
    let mut scene = scene();
    scene.instances[0].index_count = 0;
    scene.instances[2].first_index = 11;
    scene.instances[3].base_vertex = 5;
    scene.instances.push(instance((3, 3, 7), 0, "last", 0.0, 1.0));
    let mut classification = Classification::from_assignment(&scene, vec![0, 9, 0, 0, 0]);
    classification.preset_pipes_only();
    let cut = subset(&scene, &classification).expect("one is left");
    assert_eq!(cut.instances.len(), 1);
    assert_eq!(cut.instances[0].source, 4);
    assert_eq!(cut.vertices, (7..10).map(vertex).collect::<Vec<_>>());
}

#[test]
fn an_empty_subset_is_refused() {
    let scene = scene();
    let mut classification = pipes_only(&scene);
    classification.set_all(Mode::Hidden);
    assert_eq!(subset(&scene, &classification).err(), Some(NothingToExport));
}

#[test]
fn the_whole_map_is_a_subset_of_itself() {
    let scene = scene();
    let mut classification = pipes_only(&scene);
    classification.preset_everything();
    let cut = subset(&scene, &classification).expect("everything");
    assert_eq!(cut.instances.len(), 4);
    assert_eq!(
        summary(&scene, &cut, 1_000),
        Summary {
            instances_in: 4,
            instances_out: 4,
            vertices_in: 10,
            vertices_out: 3 + 4 + 3,
            triangles_out: 4,
            bytes_in: 4_096,
            bytes_out: 1_000,
        }
    );
}

#[test]
fn sections_are_aligned_and_in_order() {
    let plan = Plan::new(16, 100, 30, 0, 5, 64, 12).expect("a small file");
    assert_eq!(plan.header, Section { start: 0, len: 100 });
    assert_eq!(plan.instances, Section { start: 112, len: 30 });
    assert_eq!(plan.materials, Section { start: 144, len: 0 });
    assert_eq!(plan.strings, Section { start: 144, len: 5 });
    assert_eq!(plan.vertices, Section { start: 160, len: 64 });
    assert_eq!(plan.indices, Section { start: 224, len: 12 });
    assert_eq!(plan.total, 240);
    assert!(Plan::new(16, 100, usize::MAX, 0, 5, 64, 12).is_none());
    assert!(Plan::new(16, usize::MAX, 0, 0, 0, 0, 0).is_none());
}

#[test]
fn the_file_reads_back() {
    let scene = scene();
    let cut = subset(&scene, &pipes_only(&scene)).expect("three pipes");
    let (header, instances, materials) = (vec![0xAA; 20], vec![0xBB; 33], vec![0xCC; 7]);
    let plan = plan_for(&cut, 16, header.len(), instances.len(), materials.len()).expect("a small file");
    let bytes = to_bytes(&cut, &plan, 16, &header, &instances, &materials);
    assert_eq!(bytes.len(), plan.total);

    let section = |s: Section| &bytes[s.start..s.start + s.len];
    assert_eq!(section(plan.header), &header[..]);
    assert_eq!(section(plan.instances), &instances[..]);
    assert_eq!(section(plan.materials), &materials[..]);
    assert_eq!(section(plan.strings), &cut.strings[..]);
    let words = |bytes: &[u8]| -> Vec<u32> {
        bytes
            .chunks_exact(4)
            .map(|b| u32::from_ne_bytes([b[0], b[1], b[2], b[3]]))
            .collect()
    };
    assert_eq!(words(section(plan.indices)), cut.indices);
    assert_eq!(words(section(plan.vertices)), cut.vertices.concat());
    // Between the sections there are zeros.
    assert!(bytes[20..32].iter().all(|b| *b == 0));
    assert_eq!(bytes[plan.instances.start + 33], 0);

    let said = header_of(&cut, &plan, scene.bake_hash);
    assert_eq!(said.bake_hash, 0xfeed);
    assert_eq!((said.instance_count, said.material_count), (3, 2));
    assert_eq!((said.vertex_count, said.index_count), (6, 6));
    assert_eq!(said.strings_len as usize, cut.strings.len());
    assert_eq!(said.vertices_offset as usize, plan.vertices.start);
    assert_eq!(said.scene_min, cut.scene_min);
}

#[test]
fn no_vertex_is_carried_that_nothing_draws() {
    let scene = scene();
    let cut = subset(&scene, &pipes_only(&scene)).expect("three pipes");
    let mut used = vec![false; cut.vertices.len()];
    for kept in &cut.instances {
        let count = scene.instances[kept.source].index_count;
        for i in kept.first_index..kept.first_index + count {
            used[(kept.base_vertex + cut.indices[i as usize]) as usize] = true;
        }
    }
    assert!(used.iter().all(|used| *used));
}

#[test]
fn vertices_between_those_that_are_drawn_stay_behind() {
    let mut scene = scene();
    scene.instances = vec![instance((0, 3, 0), 0, "sparse", 0.0, 1.0)];
    scene.vertices = (0..6).map(vertex).collect();
    scene.indices = vec![0, 1, 5];
    let classification = Classification::from_assignment(&scene, vec![0]);
    let cut = subset(&scene, &classification).expect("one instance");
    assert_eq!(cut.vertices, [0, 1, 5].map(vertex).to_vec());
    assert_eq!(cut.indices, vec![0, 1, 2]);
    assert_eq!(summary(&scene, &cut, 0).vertices_out, 3);
}

/// The scene that the file of a subset reads as.
fn opened(scene: &Scene, cut: &Subset) -> Scene {
    Scene {
        instances: cut
            .instances
            .iter()
            .map(|kept| {
                let whole = &scene.instances[kept.source];
                Instance {
                    first_index: kept.first_index,
                    index_count: whole.index_count,
                    base_vertex: kept.base_vertex,
                    material: kept.material,
                    name: text(cut, kept.name_offset, kept.name_len),
                    transform: whole.transform,
                    aabb_min: whole.aabb_min,
                    aabb_max: whole.aabb_max,
                }
            })
            .collect(),
        materials: cut
            .materials
            .iter()
            .map(|m| Material { name: text(cut, m.name_offset, m.name_len), colour: m.colour })
            .collect(),
        vertices: cut.vertices.clone(),
        indices: cut.indices.clone(),
        scene_min: cut.scene_min,
        scene_max: cut.scene_max,
        bake_hash: scene.bake_hash,
        byte_len: 0,
    }
}

#[test]
fn publishing_all_of_a_published_scene_gives_it_again() {
    let scene = scene();
    let cut = subset(&scene, &pipes_only(&scene)).expect("three pipes");
    let published = opened(&scene, &cut);
    let mut classification = Classification::new(&published).expect("classify");
    classification.preset_everything();
    let again = subset(&published, &classification).expect("all of it");
    assert_eq!(again.vertices, cut.vertices);
    assert_eq!(again.indices, cut.indices);
    assert_eq!(again.strings, cut.strings);
    assert_eq!((again.scene_min, again.scene_max), (cut.scene_min, cut.scene_max));
    assert_eq!(again.instances.len(), cut.instances.len());
    for (k, (one, two)) in cut.instances.iter().zip(&again.instances).enumerate() {
        assert_eq!(*two, Kept { source: k, ..*one });
    }
    let file = |cut: &Subset| {
        let plan = plan_for(cut, 16, 4, 5, 6).expect("a small file");
        to_bytes(cut, &plan, 16, &[1; 4], &[2; 5], &[3; 6])
    };
    assert_eq!(file(&again), file(&cut));
}

#[test]
fn a_published_instance_is_classified_as_it_was() {
    let mut scene = scene();
    scene.instances[2].name = "metal_ladder_128".to_string();
    scene.instances[3].name = "nuke_machinery_05".to_string();
    scene.materials[0].name = "materials/concrete/hr_concrete_wall_001b.vmat".to_string();
    let mut before = Classification::new(&scene).expect("classify");
    before.preset_everything();
    let cut = subset(&scene, &before).expect("all of it");
    let after = Classification::new(&opened(&scene, &cut)).expect("classify");
    for (k, kept) in cut.instances.iter().enumerate() {
        assert_eq!(after.category_of(k).id, before.category_of(kept.source).id);
    }
    let ids: Vec<&str> = (0..4).map(|k| after.category_of(k).id).collect();
    assert_eq!(ids, vec!["other", "structure", "access", "machinery"]);
}

#[test]
fn the_box_of_an_export_is_the_box_of_what_is_visible() {
    let scene = scene();
    let classification = pipes_only(&scene);
    let cut = subset(&scene, &classification).expect("three pipes");
    assert_eq!(classification.visible_bounds(&scene), (cut.scene_min, cut.scene_max));
}
