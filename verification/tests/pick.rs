use plant::category::{Classification, Mode};
use plant::pick::{nearest, shortlist, triangles, Candidate, Hit, Search};
use plant::scene::{Instance, Scene};
use plant::single::Single;

type Point = [f32; 3];

fn single(x: f32) -> Single {
    Single { bits: x.to_bits() }
}

fn number(x: Single) -> f32 {
    f32::from_bits(x.bits)
}

fn sub(a: Point, b: Point) -> Point {
    [a[0] - b[0], a[1] - b[1], a[2] - b[2]]
}

fn dot(a: Point, b: Point) -> f32 {
    a[0] * b[0] + a[1] * b[1] + a[2] * b[2]
}

fn cross(a: Point, b: Point) -> Point {
    [
        a[1] * b[2] - a[2] * b[1],
        a[2] * b[0] - a[0] * b[2],
        a[0] * b[1] - a[1] * b[0],
    ]
}

/// Where a ray enters a box.
fn slab(origin: Point, direction: Point, low: [Single; 3], high: [Single; 3]) -> Option<Single> {
    let (mut near, mut far) = (f32::NEG_INFINITY, f32::INFINITY);
    for axis in 0..3 {
        let inverse = 1.0 / direction[axis];
        let t1 = (number(low[axis]) - origin[axis]) * inverse;
        let t2 = (number(high[axis]) - origin[axis]) * inverse;
        near = near.max(t1.min(t2));
        far = far.min(t1.max(t2));
    }
    (far >= near.max(0.0)).then(|| single(near.max(0.0)))
}

/// Where a ray strikes a triangle.
fn strike(origin: Point, direction: Point, corners: [Point; 3]) -> Option<Single> {
    let edge1 = sub(corners[1], corners[0]);
    let edge2 = sub(corners[2], corners[0]);
    let h = cross(direction, edge2);
    let det = dot(edge1, h);
    if det.abs() < 1e-7 {
        return None;
    }
    let s = sub(origin, corners[0]);
    let u = dot(s, h) / det;
    let q = cross(s, edge1);
    let v = dot(direction, q) / det;
    if u < 0.0 || v < 0.0 || u + v > 1.0 {
        return None;
    }
    let t = dot(edge2, q) / det;
    (t > 1e-7).then_some(single(t))
}

/// A wall across the z axis, as two triangles facing the viewer.
fn wall(scene: &mut Scene, z: f32) {
    let base = scene.vertices.len() as u32;
    let first = scene.indices.len() as u32;
    for (x, y) in [(-1.0, -1.0), (1.0, -1.0), (1.0, 1.0), (-1.0, 1.0)] {
        let mut vertex = [0u32; 8];
        for (word, value) in vertex.iter_mut().zip([x, y, z]) {
            *word = f32::to_bits(value);
        }
        scene.vertices.push(vertex);
    }
    scene.indices.extend([0, 1, 2, 0, 2, 3]);
    scene.instances.push(Instance {
        first_index: first,
        index_count: 6,
        base_vertex: base,
        material: 0,
        name: String::new(),
        transform: [single(0.0); 12],
        aabb_min: [single(-1.0), single(-1.0), single(z)],
        aabb_max: [single(1.0), single(1.0), single(z)],
    });
}

fn walls(depths: &[f32]) -> Scene {
    let mut scene = Scene {
        instances: Vec::new(),
        materials: Vec::new(),
        vertices: Vec::new(),
        indices: Vec::new(),
        scene_min: [single(-1.0); 3],
        scene_max: [single(1.0); 3],
        bake_hash: 0,
        byte_len: 0,
    };
    for z in depths {
        wall(&mut scene, *z);
    }
    scene
}

/// All of them pipes, which start out solid.
fn solid(scene: &Scene) -> Classification {
    Classification::from_assignment(scene, vec![0; scene.instances.len()])
}

fn position(scene: &Scene, vertex: usize) -> Point {
    let words = scene.vertices[vertex];
    [f32::from_bits(words[0]), f32::from_bits(words[1]), f32::from_bits(words[2])]
}

fn entries_of(scene: &Scene, origin: Point, direction: Point) -> Vec<Option<Single>> {
    scene
        .instances
        .iter()
        .map(|i| slab(origin, direction, i.aabb_min, i.aabb_max))
        .collect()
}

fn strikes_of(scene: &Scene, id: usize, origin: Point, direction: Point) -> Vec<Option<Single>> {
    triangles(scene, id)
        .into_iter()
        .map(|t| strike(origin, direction, t.map(|v| position(scene, v))))
        .collect()
}

fn cast(scene: &Scene, classification: &Classification, origin: Point, direction: Point) -> Option<Hit> {
    let entries = entries_of(scene, origin, direction);
    let strikes: Vec<Vec<Option<Single>>> = (0..scene.instances.len())
        .map(|id| strikes_of(scene, id, origin, direction))
        .collect();
    let aimed = direction != [0.0, 0.0, 0.0];
    let hit = nearest(scene, classification, aimed, &entries, &strikes);

    // The step-by-step search comes to the same, with fewer instances struck.
    let mut search = Search::begin(scene, classification, aimed, &entries);
    while let Some(id) = search.next() {
        search.report(&strikes[id]);
    }
    assert_eq!(search.best(), hit);
    hit
}

/// Hidden and ghosted geometry must be unpickable, or tagging a run means
/// fighting the wall in front of it.
#[test]
fn nothing_is_picked_when_everything_is_hidden() {
    let scene = walls(&[-5.0, -9.0]);
    let mut classification = solid(&scene);
    classification.set_all(Mode::Hidden);
    assert!(cast(&scene, &classification, [0.1, 0.2, 0.0], [0.0, 0.0, -1.0]).is_none());
    classification.set_all(Mode::Ghosted);
    assert!(cast(&scene, &classification, [0.1, 0.2, 0.0], [0.0, 0.0, -1.0]).is_none());
}

#[test]
fn the_nearest_of_several_is_picked() {
    let scene = walls(&[-9.0, -5.0, -7.0, 4.0]);
    let hit = cast(&scene, &solid(&scene), [0.1, 0.2, 0.0], [0.0, 0.0, -1.0]).expect("a wall ahead");
    assert_eq!(hit, Hit { instance: 1, distance: single(5.0) });
}

#[test]
fn a_ghosted_wall_does_not_stand_in_the_way() {
    let scene = walls(&[-5.0, -9.0]);
    let mut classification = Classification::from_assignment(&scene, vec![9, 0]);
    classification.preset_plant();
    let hit = cast(&scene, &classification, [0.1, 0.2, 0.0], [0.0, 0.0, -1.0]).expect("the pipe behind");
    assert_eq!(hit.instance, 1);
    assert_eq!(classification.category_of(hit.instance).mode, Mode::Solid);
}

#[test]
fn a_ray_without_a_direction_hits_nothing() {
    let scene = walls(&[-5.0]);
    assert!(cast(&scene, &solid(&scene), [0.1, 0.2, 0.0], [0.0, 0.0, 0.0]).is_none());
}

#[test]
fn a_ray_past_everything_hits_nothing() {
    let scene = walls(&[-5.0]);
    assert!(cast(&scene, &solid(&scene), [3.0, 0.2, 0.0], [0.0, 0.0, -1.0]).is_none());
}

#[test]
fn the_search_stops_at_what_cannot_be_beaten() {
    let scene = walls(&[-5.0, -9.0]);
    let classification = solid(&scene);
    let (origin, direction) = ([0.1, 0.2, 0.0], [0.0, 0.0, -1.0]);
    let entries = entries_of(&scene, origin, direction);
    let mut search = Search::begin(&scene, &classification, true, &entries);
    assert_eq!(search.next(), Some(0));
    search.report(&strikes_of(&scene, 0, origin, direction));
    assert_eq!(search.next(), None, "the second wall is behind the first");
    assert_eq!(search.best().map(|hit| hit.instance), Some(0));
}

#[test]
fn the_shortlist_goes_by_where_boxes_are_entered() {
    let mut scene = walls(&[-1.0, -1.0, -1.0, -1.0]);
    scene.instances[3].index_count = 0;
    let entries = vec![Some(single(4.0)), None, Some(single(2.0)), Some(single(1.0))];
    assert_eq!(
        shortlist(&scene, &solid(&scene), &entries),
        vec![
            Candidate { entry: single(2.0), instance: 2 },
            Candidate { entry: single(4.0), instance: 0 },
        ]
    );
}

#[test]
fn triangles_out_of_the_pools_are_left_out() {
    let mut scene = walls(&[-1.0]);
    assert_eq!(triangles(&scene, 0), vec![[0, 1, 2], [0, 2, 3]]);
    // One index short of a third triangle.
    scene.indices.extend([1, 2]);
    scene.instances[0].index_count = 8;
    assert_eq!(triangles(&scene, 0).len(), 2);
    // A vertex that is not there.
    scene.indices[5] = 9;
    assert_eq!(triangles(&scene, 0), vec![[0, 1, 2]]);
    // A range that runs out of the index pool.
    scene.instances[0].index_count = 9;
    assert!(triangles(&scene, 0).is_empty());
}
