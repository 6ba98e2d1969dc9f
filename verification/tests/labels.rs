use plant::build_labels;
use plant::category::{Classification, Mode};
use plant::labels::{card_start, declutter, in_frame, in_front, Claim, Naming};
use plant::scene::{Instance, Scene};
use plant::single::Single;

fn single(x: f32) -> Single {
    Single { bits: x.to_bits() }
}

fn classification(assignment: Vec<u8>) -> Classification {
    let instances = assignment
        .iter()
        .map(|_| Instance {
            first_index: 0,
            index_count: 3,
            base_vertex: 0,
            material: 0,
            name: String::new(),
            transform: [single(0.0); 12],
            aabb_min: [single(0.0); 3],
            aabb_max: [single(1.0); 3],
        })
        .collect();
    let scene = Scene {
        instances,
        materials: Vec::new(),
        vertices: Vec::new(),
        indices: Vec::new(),
        scene_min: [single(0.0); 3],
        scene_max: [single(1.0); 3],
        bake_hash: 0,
        byte_len: 0,
    };
    Classification::from_assignment(&scene, assignment)
}

fn claim(left: f32, top: f32, right: f32, bottom: f32) -> Option<Claim> {
    Some(Claim {
        left: single(left),
        top: single(top),
        right: single(right),
        bottom: single(bottom),
    })
}

#[test]
fn each_asset_is_labelled_once_where_it_is_nearest() {
    // The wall of category 9 is ghosted, so it gets no label.
    let classification = classification(vec![0, 0, 2, 9, 0]);
    let identified = vec![Some(4), Some(4), Some(1), Some(7), None];
    let distances: Vec<Single> = [90.0, 40.0, 60.0, 5.0, 1.0].map(single).to_vec();
    let labels = build_labels(&classification, &identified, &distances, Some(2), true);
    assert_eq!(
        labels.pinned,
        vec![
            Naming { entry: 4, instance: 1, distance: single(40.0) },
            Naming { entry: 1, instance: 2, distance: single(60.0) },
        ]
    );
    assert!(labels.pinned_on);
    assert_eq!(
        labels.hovered,
        Some(Naming { entry: 1, instance: 2, distance: single(60.0) })
    );
}

#[test]
fn far_labels_are_left_out() {
    let classification = classification(vec![0, 0, 0]);
    let identified = vec![Some(0), Some(1), Some(2)];
    let distances: Vec<Single> = [320.0, 320.1, f32::NAN].map(single).to_vec();
    let labels = build_labels(&classification, &identified, &distances, None, true);
    assert_eq!(labels.pinned.len(), 1);
    assert_eq!(labels.pinned[0].entry, 0);
}

#[test]
fn labels_can_be_switched_off() {
    let classification = classification(vec![0]);
    let labels = build_labels(&classification, &vec![Some(0)], &vec![single(1.0)], Some(0), false);
    assert!(labels.pinned.is_empty() && !labels.pinned_on);
    assert!(labels.hovered.is_some(), "what is under the cursor is named all the same");
}

#[test]
fn what_cannot_be_named_is_not_hovered() {
    let mut classification = classification(vec![0, 0]);
    classification.set_all(Mode::Solid);
    let identified = vec![None, Some(3)];
    let distances = vec![single(1.0), single(2.0)];
    for hovered in [None, Some(0), Some(2)] {
        let labels = build_labels(&classification, &identified, &distances, hovered, true);
        assert_eq!(labels.hovered, None);
    }
}

#[test]
fn the_nearer_label_wins_the_screen() {
    let claims = vec![
        claim(0.0, 0.0, 10.0, 10.0),
        claim(5.0, 5.0, 15.0, 15.0),
        // Would meet the one that was dropped, but nothing that is drawn.
        claim(12.0, 12.0, 20.0, 20.0),
        None,
        // Touching counts as meeting.
        claim(20.0, 0.0, 30.0, 12.0),
    ];
    assert_eq!(declutter(&claims), vec![true, false, true, false, false]);
    assert!(declutter(&Vec::new()).is_empty());
}

#[test]
fn anchors_behind_the_camera_or_off_the_frame_are_not_labelled() {
    assert!(in_front(single(0.5)));
    assert!(!in_front(single(0.0)));
    assert!(!in_front(single(-3.0)));
    assert!(in_frame(single(0.0), single(1.2)));
    assert!(in_frame(single(-1.2), single(-1.0)));
    assert!(!in_frame(single(1.21), single(0.0)));
    assert!(!in_frame(single(0.0), single(-1.21)));
}

#[test]
fn the_card_flips_when_it_would_run_off_the_screen() {
    let (beside, flipped) = (single(100.0), single(20.0));
    assert_eq!(card_start(beside, single(460.0), single(800.0), flipped), beside);
    assert_eq!(card_start(beside, single(800.0), single(800.0), flipped), beside);
    assert_eq!(card_start(beside, single(801.0), single(800.0), flipped), flipped);
}
