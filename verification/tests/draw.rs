use plant::category::{Classification, Mode};
use plant::draw::{Draw, DrawLists, DrawStats};
use plant::readback::{
    buffer_limit, buffer_size, on_acquired, padded_row, pixels_of, swap_red_and_blue, target_size, Acquired,
    FrameStep, PassKind,
};
use plant::scene::{Instance, Scene};
use plant::session::highlight;
use plant::single::Single;

fn single(x: f32) -> Single {
    Single { bits: x.to_bits() }
}

fn scene_of(counts: &[u32]) -> Scene {
    let instances = counts
        .iter()
        .enumerate()
        .map(|(id, count)| Instance {
            first_index: 100 * id as u32,
            index_count: *count,
            base_vertex: 7 + id as u32,
            material: 0,
            name: String::new(),
            transform: std::array::from_fn(|k| single(k as f32)),
            aabb_min: [single(0.0); 3],
            aabb_max: [single(1.0); 3],
        })
        .collect();
    Scene {
        instances,
        materials: Vec::new(),
        vertices: Vec::new(),
        indices: Vec::new(),
        scene_min: [single(0.0); 3],
        scene_max: [single(1.0); 3],
        bake_hash: 0,
        byte_len: 0,
    }
}

fn rgb(lists: &DrawLists, id: usize) -> [f32; 4] {
    lists.records[id].colour.map(|c| f32::from_bits(c.bits))
}

#[test]
fn instances_are_drawn_in_the_pass_of_their_mode() {
    // Two pipes, a wall, a fence, and a pipe that draws nothing.
    let scene = scene_of(&[30, 12, 9, 6, 0]);
    let mut classification = Classification::from_assignment(&scene, vec![0, 9, 10, 0, 0]);
    let mut lists = DrawLists::new(&scene);
    assert_eq!(rgb(&lists, 0), [1.0, 0.0, 1.0, 1.0]);
    lists.apply(&scene, &classification, &highlight(None, 5));
    assert_eq!(
        lists.solid_draws,
        vec![
            Draw { first_index: 0, index_count: 30, base_vertex: 7, instance: 0 },
            Draw { first_index: 300, index_count: 6, base_vertex: 10, instance: 3 },
        ]
    );
    assert_eq!(
        lists.ghost_draws,
        vec![Draw { first_index: 100, index_count: 12, base_vertex: 8, instance: 1 }]
    );
    assert_eq!(lists.stats, DrawStats { solid: 2, ghosted: 1, triangles: 10 + 4 + 2 });
    // The panel counts the same instances and triangles.
    assert_eq!(classification.drawn(), (3, lists.stats.triangles));
    classification.preset_plant();
    lists.apply(&scene, &classification, &highlight(None, 5));
    assert_eq!(lists.stats, DrawStats { solid: 2, ghosted: 2, triangles: 10 + 4 + 3 + 2 });
    assert_eq!(classification.drawn(), (4, lists.stats.triangles));
}

#[test]
fn records_carry_the_transform_and_the_colour() {
    let scene = scene_of(&[30, 12, 9]);
    let classification = Classification::from_assignment(&scene, vec![0, 0, 10]);
    let mut lists = DrawLists::new(&scene);
    lists.apply(&scene, &classification, &highlight(Some(1), 3));
    assert_eq!(rgb(&lists, 0), [1.0, 0.34, 0.10, 1.0]);
    assert_eq!(rgb(&lists, 1), [1.0, 1.0, 1.0, 1.0], "what is picked is white");
    assert_eq!(rgb(&lists, 2), [1.0, 0.0, 1.0, 1.0], "what is hidden keeps its colour");
    assert_eq!(lists.records[0].rows[1][2], single(6.0));
    assert_eq!(lists.records[0].rows[2][3], single(11.0));
}

#[test]
fn applying_again_starts_from_nothing() {
    let scene = scene_of(&[30, 12]);
    let mut classification = Classification::from_assignment(&scene, vec![0, 9]);
    let mut lists = DrawLists::new(&scene);
    lists.apply(&scene, &classification, &Vec::new());
    classification.set_all(Mode::Hidden);
    lists.apply(&scene, &classification, &Vec::new());
    assert!(lists.solid_draws.is_empty() && lists.ghost_draws.is_empty());
    assert_eq!(lists.stats, DrawStats { solid: 0, ghosted: 0, triangles: 0 });
}

#[test]
fn only_what_is_picked_is_highlighted() {
    let colours = highlight(Some(1), 3);
    assert_eq!(colours, vec![None, Some([single(1.0); 3]), None]);
    assert_eq!(highlight(Some(9), 2), vec![None, None]);
}

#[test]
fn rows_are_padded_for_copying_and_stripped_afterwards() {
    assert_eq!(padded_row(64), Some(256));
    assert_eq!(padded_row(65), Some(512));
    assert_eq!(padded_row(0), Some(0));
    assert_eq!(padded_row(u32::MAX), None);

    // Two rows of two pixels, eight bytes of 256 each.
    let mut mapped = vec![0xEE; 512];
    mapped[..8].copy_from_slice(&[1, 2, 3, 4, 5, 6, 7, 8]);
    mapped[256..264].copy_from_slice(&[11, 12, 13, 14, 15, 16, 17, 18]);
    assert_eq!(
        pixels_of(&mapped, 2, 2, 256, false),
        vec![1, 2, 3, 4, 5, 6, 7, 8, 11, 12, 13, 14, 15, 16, 17, 18]
    );
    assert_eq!(
        pixels_of(&mapped, 2, 2, 256, true),
        vec![3, 2, 1, 4, 7, 6, 5, 8, 13, 12, 11, 14, 17, 16, 15, 18]
    );
}

#[test]
fn swapping_red_and_blue_twice_changes_nothing() {
    let pixels: Vec<u8> = (0..10).collect();
    let mut swapped = pixels.clone();
    swap_red_and_blue(&mut swapped);
    assert_eq!(swapped, vec![2, 1, 0, 3, 6, 5, 4, 7, 8, 9]);
    swap_red_and_blue(&mut swapped);
    assert_eq!(swapped, pixels);
}

#[test]
fn sizes_stay_within_what_can_be_had() {
    assert_eq!(buffer_limit(256 << 20), 256 << 20);
    assert_eq!(buffer_limit(4 << 30), 512 << 20);
    assert_eq!(buffer_size(0), 4);
    assert_eq!(buffer_size(99), 99);
    assert_eq!(target_size(0, 9), None);
    assert_eq!(target_size(9, 0), None);
    assert_eq!(target_size(1600, 900), Some((1600, 900)));
}

#[test]
fn the_ghost_pass_adds_and_does_not_occlude() {
    assert!(PassKind::Solid.writes_depth() && !PassKind::Solid.is_additive());
    assert!(!PassKind::Ghosted.writes_depth() && PassKind::Ghosted.is_additive());
}

#[test]
fn a_frame_that_cannot_be_had_is_not_drawn() {
    assert_eq!(on_acquired(Acquired::Success), FrameStep::Draw);
    assert_eq!(on_acquired(Acquired::Suboptimal), FrameStep::Draw);
    assert_eq!(on_acquired(Acquired::Outdated), FrameStep::Reconfigure);
    assert_eq!(on_acquired(Acquired::Lost), FrameStep::Reconfigure);
    assert_eq!(on_acquired(Acquired::Timeout), FrameStep::Skip);
    assert_eq!(on_acquired(Acquired::Occluded), FrameStep::Skip);
    assert_eq!(on_acquired(Acquired::Validation), FrameStep::Fail);
}
