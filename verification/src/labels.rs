//! Names over the scene: a pinned tag on each identified asset, and a card for
//! whatever is under the cursor.
//!
//! One pinned label per *distinct* identified asset, placed on whichever of its
//! instances is nearest the camera. Labelling every instance would put hundreds
//! of tags on the pipework alone; one per asset is the readable version and
//! still names everything that could be identified.
//!
//! Labels arrive nearest first and are decluttered in screen space: the closest
//! label wins any contested patch of screen, and anything that would overlap it
//! is dropped rather than drawn on top.
use crate::category::{Classification, Mode};
use crate::identify_table::PROPS;
use crate::single::{law_numbers_are_ordered_by_value, value, Single, ZERO};
use vstd::prelude::*;

verus! {

/// Bits of `320.0`: beyond this many metres a label is smaller than the thing
/// that it names, and only adds clutter to a wide shot.
pub const LABEL_RANGE: u32 = 0x43A0_0000;

/// Bits of `1.2`: how far past the edge of the frame an anchor may lie, where
/// the frame itself reaches one.
pub const FRAME_EDGE: u32 = 0x3F99_999A;

/// Bits of `-1.2`.
pub const FRAME_EDGE_BELOW: u32 = 0xBF99_999A;

/// One thing to name on screen: either under the cursor, or pinned in space.
#[derive(Debug, Clone, Copy, PartialEq, Eq, Structural)]
pub struct Naming {
    /// Which entry of the identification table says what it is.
    pub entry: usize,
    /// The instance that it stands on.
    pub instance: usize,
    /// How far the camera is from it.
    pub distance: Single,
}

/// Everything the label layer needs for one frame.
pub struct Labels {
    /// The prop under the cursor, if it can be named.
    pub hovered: Option<Naming>,
    /// One label per distinct identified asset that is solid, nearest first.
    pub pinned: Vec<Naming>,
    /// Whether pinned labels are switched on.
    pub pinned_on: bool,
}

/// An instance stands for an asset when it is solid and identified as that asset.
pub open spec fn stands_for(
    classification: &Classification,
    identified: Seq<Option<usize>>,
    entry: usize,
    id: int,
) -> bool {
    &&& 0 <= id < identified.len()
    &&& identified[id] == Some(entry)
    &&& classification.mode_at(id) == Mode::Solid
}

/// Among the first `n` instances that stand for an asset, this is the nearest;
/// of several at the same distance, the first. A distance that is not a number
/// is no distance.
pub open spec fn is_nearest_of(
    classification: &Classification,
    identified: Seq<Option<usize>>,
    distances: Seq<Single>,
    entry: usize,
    n: int,
    id: int,
) -> bool {
    &&& id < n
    &&& stands_for(classification, identified, entry, id)
    &&& !distances[id].nan()
    &&& forall|j: int|
        0 <= j < id && #[trigger] stands_for(classification, identified, entry, j)
            ==> !distances[j].at_most(distances[id])
    &&& forall|j: int|
        id < j < n && #[trigger] stands_for(classification, identified, entry, j)
            ==> !distances[j].below(distances[id])
}

/// A label belongs on the screen: it stands on the nearest instance of its
/// asset, and that is near enough.
pub open spec fn belongs(
    classification: &Classification,
    identified: Seq<Option<usize>>,
    distances: Seq<Single>,
    naming: Naming,
) -> bool {
    &&& is_nearest_of(
        classification,
        identified,
        distances,
        naming.entry,
        identified.len() as int,
        naming.instance as int,
    )
    &&& naming.distance == distances[naming.instance as int]
    &&& naming.distance.at_most(Single { bits: LABEL_RANGE })
}

/// Nearer first; at the same distance, in the order of the table.
pub open spec fn ahead(a: Naming, b: Naming) -> bool {
    ||| a.distance.total_rank() < b.distance.total_rank()
    ||| a.distance.total_rank() == b.distance.total_rank() && a.entry < b.entry
}

/// The labels for the first `n` entries of the table: all that belong, and
/// nothing else, nearest first.
pub open spec fn pins(
    classification: &Classification,
    identified: Seq<Option<usize>>,
    distances: Seq<Single>,
    n: int,
    list: Seq<Naming>,
) -> bool {
    &&& forall|i: int, j: int| 0 <= i < j < list.len() ==> ahead(#[trigger] list[i], #[trigger] list[j])
    &&& forall|i: int|
        0 <= i < list.len() ==> (#[trigger] list[i]).entry < n && belongs(
            classification,
            identified,
            distances,
            list[i],
        )
    &&& forall|naming: Naming|
        naming.entry < n && #[trigger] belongs(classification, identified, distances, naming)
            ==> list.contains(naming)
}

/// What the prop that an instance belongs to is called.
pub open spec fn named(
    identified: Seq<Option<usize>>,
    distances: Seq<Single>,
    instance: Option<usize>,
) -> Option<Naming> {
    match instance {
        Some(id) => if id < identified.len() {
            match identified[id as int] {
                Some(entry) => Some(Naming { entry, instance: id, distance: distances[id as int] }),
                None => None,
            }
        } else {
            None
        },
        None => None,
    }
}

/// The nearest instance that stands for an asset, if one stands at a distance
/// that is a number.
fn nearest_of(
    classification: &Classification,
    identified: &Vec<Option<usize>>,
    distances: &Vec<Single>,
    entry: usize,
) -> (r: Option<usize>)
    requires
        classification.categories@.len() > 0,
        distances@.len() == identified@.len(),
    ensures
        match r {
            Some(id) => is_nearest_of(
                classification,
                identified@,
                distances@,
                entry,
                identified@.len() as int,
                id as int,
            ),
            None => forall|id: int| #[trigger]
                stands_for(classification, identified@, entry, id) ==> distances@[id].nan(),
        },
{
    let mut best: Option<usize> = None;
    let mut id: usize = 0;
    while id < identified.len()
        invariant
            classification.categories@.len() > 0,
            distances@.len() == identified@.len(),
            id <= identified@.len(),
            match best {
                Some(at) => is_nearest_of(
                    classification,
                    identified@,
                    distances@,
                    entry,
                    id as int,
                    at as int,
                ),
                None => forall|j: int|
                    0 <= j < id && #[trigger] stands_for(classification, identified@, entry, j)
                        ==> distances@[j].nan(),
            },
        decreases identified@.len() - id,
    {
        let is_the_asset: bool = match identified[id] {
            Some(found) => found == entry,
            None => false,
        };
        if is_the_asset && classification.category_of(id).mode == Mode::Solid && !distances[id].is_nan() {
            assert(stands_for(classification, identified@, entry, id as int));
            let nearer: bool = match best {
                Some(at) => distances[id].lt(distances[at]),
                None => true,
            };
            if nearer {
                best = Some(id);
            }
        }
        id += 1;
    }
    best
}

/// Collect the names to draw over the scene this frame.
///
/// `identified` says which entry of the table names each instance, `distances`
/// how far the camera is from each.
#[must_use]
pub fn build_labels(
    classification: &Classification,
    identified: &Vec<Option<usize>>,
    distances: &Vec<Single>,
    hovered: Option<usize>,
    show_labels: bool,
) -> (r: Labels)
    requires
        classification.categories@.len() > 0,
        distances@.len() == identified@.len(),
    ensures
        r.pinned_on == show_labels,
        r.hovered == named(identified@, distances@, hovered),
        show_labels ==> pins(classification, identified@, distances@, PROPS as int, r.pinned@),
        !show_labels ==> r.pinned@.len() == 0,
{
    let hovered_name: Option<Naming> = match hovered {
        Some(id) => if id < identified.len() {
            match identified[id] {
                Some(entry) => Some(Naming { entry, instance: id, distance: distances[id] }),
                None => None,
            }
        } else {
            None
        },
        None => None,
    };
    let mut pinned: Vec<Naming> = Vec::new();
    if show_labels {
        let mut entry: usize = 0;
        while entry < PROPS
            invariant
                classification.categories@.len() > 0,
                distances@.len() == identified@.len(),
                entry <= PROPS,
                pins(classification, identified@, distances@, entry as int, pinned@),
            decreases PROPS - entry,
        {
            let ghost before = pinned@;
            let nearest: Option<usize> = nearest_of(classification, identified, distances, entry);
            match nearest {
                Some(id) if distances[id].le(Single { bits: LABEL_RANGE }) => {
                    let naming: Naming = Naming { entry, instance: id, distance: distances[id] };
                    let place: usize = place_for(&pinned, naming);
                    pinned.insert(place, naming);
                    proof {
                        assert forall|other: Naming|
                            other.entry == entry && #[trigger] belongs(
                                classification,
                                identified@,
                                distances@,
                                other,
                            ) implies other == naming by {
                            lemma_one_nearest(
                                classification,
                                identified@,
                                distances@,
                                entry,
                                other.instance as int,
                                naming.instance as int,
                            );
                        }
                        lemma_pin_one_more(
                            classification,
                            identified@,
                            distances@,
                            entry as int,
                            before,
                            place as int,
                            naming,
                        );
                    }
                },
                _ => {
                    assert forall|other: Naming|
                        other.entry < entry + 1 && #[trigger] belongs(
                            classification,
                            identified@,
                            distances@,
                            other,
                        ) implies pinned@.contains(other) by {
                        if other.entry == entry {
                            assert(stands_for(
                                classification,
                                identified@,
                                entry,
                                other.instance as int,
                            ));
                            if let Some(id) = nearest {
                                lemma_one_nearest(
                                    classification,
                                    identified@,
                                    distances@,
                                    entry,
                                    other.instance as int,
                                    id as int,
                                );
                            }
                        }
                    }
                },
            }
            entry += 1;
        }
    }
    Labels { hovered: hovered_name, pinned, pinned_on: show_labels }
}

/// An asset has one nearest instance.
proof fn lemma_one_nearest(
    classification: &Classification,
    identified: Seq<Option<usize>>,
    distances: Seq<Single>,
    entry: usize,
    a: int,
    b: int,
)
    requires
        is_nearest_of(classification, identified, distances, entry, identified.len() as int, a),
        is_nearest_of(classification, identified, distances, entry, identified.len() as int, b),
    ensures
        a == b,
{
    assert(stands_for(classification, identified, entry, a));
    assert(stands_for(classification, identified, entry, b));
}

/// Where a label goes: behind everything that is not further away.
fn place_for(list: &Vec<Naming>, naming: Naming) -> (r: usize)
    requires
        forall|i: int, j: int|
            0 <= i < j < list@.len() ==> ahead(#[trigger] list@[i], #[trigger] list@[j]),
        forall|i: int| 0 <= i < list@.len() ==> (#[trigger] list@[i]).entry < naming.entry,
    ensures
        r <= list@.len(),
        forall|i: int| 0 <= i < r ==> ahead(#[trigger] list@[i], naming),
        forall|i: int| r <= i < list@.len() ==> ahead(naming, #[trigger] list@[i]),
{
    let mut place: usize = list.len();
    while place > 0 && naming.distance.before(list[place - 1].distance)
        invariant
            place <= list@.len(),
            forall|i: int| place <= i < list@.len() ==> ahead(naming, #[trigger] list@[i]),
        decreases place,
    {
        place -= 1;
    }
    assert forall|i: int| 0 <= i < place implies ahead(#[trigger] list@[i], naming) by {
        let last = list@[place - 1];
        assert(i < place - 1 ==> ahead(list@[i], last));
    }
    place
}

proof fn lemma_pin_one_more(
    classification: &Classification,
    identified: Seq<Option<usize>>,
    distances: Seq<Single>,
    n: int,
    list: Seq<Naming>,
    place: int,
    naming: Naming,
)
    requires
        0 <= n,
        pins(classification, identified, distances, n, list),
        0 <= place <= list.len(),
        naming.entry == n,
        belongs(classification, identified, distances, naming),
        forall|other: Naming|
            other.entry == n && #[trigger] belongs(classification, identified, distances, other)
                ==> other == naming,
        forall|i: int| 0 <= i < place ==> ahead(#[trigger] list[i], naming),
        forall|i: int| place <= i < list.len() ==> ahead(naming, #[trigger] list[i]),
    ensures
        pins(classification, identified, distances, n + 1, list.insert(place, naming)),
{
    let longer = list.insert(place, naming);
    assert forall|i: int, j: int| 0 <= i < j < longer.len() implies ahead(
        #[trigger] longer[i],
        #[trigger] longer[j],
    ) by {
        let a = if i < place { i } else { i - 1 };
        let b = if j < place { j } else { j - 1 };
        if i != place {
            assert(longer[i] == list[a]);
        }
        if j != place {
            assert(longer[j] == list[b]);
        }
    }
    assert forall|i: int| 0 <= i < longer.len() implies (#[trigger] longer[i]).entry < n + 1 && belongs(
        classification,
        identified,
        distances,
        longer[i],
    ) by {
        if i < place {
            assert(longer[i] == list[i]);
        } else if i > place {
            assert(longer[i] == list[i - 1]);
        }
    }
    assert forall|other: Naming|
        other.entry < n + 1 && #[trigger] belongs(classification, identified, distances, other) implies longer.contains(
    other) by {
        if other.entry == n {
            assert(longer[place] == other);
        } else {
            assert(list.contains(other));
            let i = choose|i: int| 0 <= i < list.len() && list[i] == other;
            if i < place {
                assert(longer[i] == other);
            } else {
                assert(longer[i + 1] == other);
            }
        }
    }
}

/// No asset is labelled twice.
pub proof fn law_one_label_per_asset(
    classification: &Classification,
    identified: Seq<Option<usize>>,
    distances: Seq<Single>,
    n: int,
    list: Seq<Naming>,
    i: int,
    j: int,
)
    requires
        pins(classification, identified, distances, n, list),
        0 <= i < j < list.len(),
    ensures
        list[i].entry != list[j].entry,
{
    if list[i].entry == list[j].entry {
        assert(belongs(classification, identified, distances, list[i]));
        assert(belongs(classification, identified, distances, list[j]));
        lemma_one_nearest(
            classification,
            identified,
            distances,
            list[i].entry,
            list[i].instance as int,
            list[j].instance as int,
        );
        assert(ahead(list[i], list[j]));
    }
}

/// An asset is labelled exactly when one of its instances is solid and within
/// range.
pub proof fn law_every_asset_in_range_is_labelled(
    classification: &Classification,
    identified: Seq<Option<usize>>,
    distances: Seq<Single>,
    list: Seq<Naming>,
    entry: usize,
)
    requires
        entry < PROPS,
        identified.len() <= usize::MAX,
        pins(classification, identified, distances, PROPS as int, list),
    ensures
        (exists|k: int| 0 <= k < list.len() && (#[trigger] list[k]).entry == entry) <==> exists|id: int|
            #[trigger] stands_for(classification, identified, entry, id) && distances[id].at_most(
                Single { bits: LABEL_RANGE },
            ),
{
    if exists|k: int| 0 <= k < list.len() && (#[trigger] list[k]).entry == entry {
        let k = choose|k: int| 0 <= k < list.len() && (#[trigger] list[k]).entry == entry;
        assert(belongs(classification, identified, distances, list[k]));
        assert(stands_for(classification, identified, entry, list[k].instance as int));
    }
    if exists|id: int|
        #[trigger] stands_for(classification, identified, entry, id) && distances[id].at_most(
            Single { bits: LABEL_RANGE },
        ) {
        let id = choose|id: int|
            #[trigger] stands_for(classification, identified, entry, id) && distances[id].at_most(
                Single { bits: LABEL_RANGE },
            );
        let at = lemma_some_nearest(
            classification,
            identified,
            distances,
            entry,
            identified.len() as int,
            id,
        );
        let naming = Naming { entry, instance: at as usize, distance: distances[at] };
        assert(belongs(classification, identified, distances, naming));
        assert(list.contains(naming));
        let k = choose|k: int| 0 <= k < list.len() && list[k] == naming;
        assert(list[k].entry == entry);
    }
}

/// Where something stands, something stands nearest, and no further.
proof fn lemma_some_nearest(
    classification: &Classification,
    identified: Seq<Option<usize>>,
    distances: Seq<Single>,
    entry: usize,
    n: int,
    id: int,
) -> (at: int)
    requires
        n <= identified.len(),
        0 <= id < n,
        stands_for(classification, identified, entry, id),
        !distances[id].nan(),
    ensures
        is_nearest_of(classification, identified, distances, entry, n, at),
        distances[at].at_most(distances[id]),
    decreases n,
{
    if id == n - 1 && forall|j: int|
        0 <= j < id && #[trigger] stands_for(classification, identified, entry, j)
            ==> !distances[j].at_most(distances[id]) {
        id
    } else if id == n - 1 {
        let j = choose|j: int|
            0 <= j < id && #[trigger] stands_for(classification, identified, entry, j)
                && distances[j].at_most(distances[id]);
        lemma_some_nearest(classification, identified, distances, entry, n - 1, j)
    } else {
        let before = lemma_some_nearest(classification, identified, distances, entry, n - 1, id);
        if stands_for(classification, identified, entry, n - 1) && distances[n - 1].below(
            distances[before],
        ) {
            assert forall|j: int|
                0 <= j < n - 1 && #[trigger] stands_for(
                    classification,
                    identified,
                    entry,
                    j,
                ) implies !distances[j].at_most(distances[n - 1]) by {}
            n - 1
        } else {
            before
        }
    }
}

/// A patch of screen that a label takes up.
#[derive(Debug, Clone, Copy, PartialEq, Eq, Structural)]
pub struct Claim {
    pub left: Single,
    pub top: Single,
    pub right: Single,
    pub bottom: Single,
}

impl Claim {
    /// Two patches touch or overlap.
    pub open spec fn meets(self, other: Claim) -> bool {
        &&& self.left.at_most(other.right)
        &&& other.left.at_most(self.right)
        &&& self.top.at_most(other.bottom)
        &&& other.top.at_most(self.bottom)
    }

    /// Whether two patches touch or overlap.
    pub fn intersects(self, other: Claim) -> (r: bool)
        ensures
            r == self.meets(other),
    {
        self.left.le(other.right) && other.left.le(self.right) && self.top.le(other.bottom)
            && other.top.le(self.bottom)
    }
}

/// Whether label `k` is drawn: it is on the screen, and meets no label that was
/// drawn before it.
pub open spec fn is_drawn(claims: Seq<Option<Claim>>, k: int) -> bool
    decreases k,
{
    &&& 0 <= k < claims.len()
    &&& claims[k] is Some
    &&& forall|j: int| #![trigger claims[j]]
        0 <= j < k && claims[j] is Some && claims[j]->0.meets(claims[k]->0) ==> !is_drawn(claims, j)
}

/// Decide which labels are drawn. `claims` has the patch of screen that each
/// label would take up, none for one that is off the screen, nearest first.
#[must_use]
pub fn declutter(claims: &Vec<Option<Claim>>) -> (r: Vec<bool>)
    ensures
        r@.len() == claims@.len(),
        forall|k: int| 0 <= k < r@.len() ==> (#[trigger] r@[k]) == is_drawn(claims@, k),
{
    let mut drawn: Vec<bool> = Vec::new();
    let mut k: usize = 0;
    while k < claims.len()
        invariant
            k <= claims@.len(),
            drawn@.len() == k,
            forall|i: int| 0 <= i < k ==> (#[trigger] drawn@[i]) == is_drawn(claims@, i),
        decreases claims@.len() - k,
    {
        let free: bool = match claims[k] {
            Some(claim) => {
                let mut free: bool = true;
                let mut j: usize = 0;
                while j < k
                    invariant
                        j <= k < claims@.len(),
                        drawn@.len() == k,
                        forall|i: int| 0 <= i < k ==> (#[trigger] drawn@[i]) == is_drawn(claims@, i),
                        claims@[k as int] == Some(claim),
                        free == forall|i: int| #![trigger claims@[i]]
                            0 <= i < j && claims@[i] is Some && claims@[i]->0.meets(claim) ==> !is_drawn(
                                claims@,
                                i,
                            ),
                    decreases k - j,
                {
                    if drawn[j] {
                        if let Some(other) = claims[j] {
                            if other.intersects(claim) {
                                free = false;
                            }
                        }
                    }
                    j += 1;
                }
                free
            },
            None => false,
        };
        drawn.push(free);
        k += 1;
    }
    drawn
}

/// No two labels that are drawn touch.
pub proof fn law_drawn_labels_are_apart(claims: Seq<Option<Claim>>, j: int, k: int)
    requires
        0 <= j < k,
        is_drawn(claims, j),
        is_drawn(claims, k),
    ensures
        !claims[j]->0.meets(claims[k]->0),
{
    assert(claims[j] is Some);
}

/// A label on the screen is dropped only for one that is nearer and drawn.
pub proof fn law_a_dropped_label_lost_to_a_nearer_one(claims: Seq<Option<Claim>>, k: int)
    requires
        0 <= k < claims.len(),
        claims[k] is Some,
        !is_drawn(claims, k),
    ensures
        exists|j: int|
            0 <= j < k && #[trigger] is_drawn(claims, j) && claims[j]->0.meets(claims[k]->0),
{
    let j = choose|j: int| #![trigger claims[j]]
        0 <= j < k && claims[j] is Some && claims[j]->0.meets(claims[k]->0) && is_drawn(claims, j);
    assert(is_drawn(claims, j));
}

/// Whether an anchor is in front of the camera, by the fourth of its clip
/// coordinates.
#[must_use]
pub fn in_front(w: Single) -> (r: bool)
    ensures
        r == !w.at_most(Single { bits: ZERO }),
{
    !w.le(Single { bits: ZERO })
}

/// An axis of an anchor lies in the frame, or not far outside.
pub open spec fn near_frame(x: Single) -> bool {
    !x.below(Single { bits: FRAME_EDGE_BELOW }) && !(Single { bits: FRAME_EDGE }).below(x)
}

/// Whether an anchor is close enough to the frame to be labelled.
#[must_use]
pub fn in_frame(x: Single, y: Single) -> (r: bool)
    ensures
        r == (near_frame(x) && near_frame(y)),
{
    let low: Single = Single { bits: FRAME_EDGE_BELOW };
    let high: Single = Single { bits: FRAME_EDGE };
    !(x.lt(low) || high.lt(x) || y.lt(low) || high.lt(y))
}

/// Where the hover card starts on an axis: beside the cursor, unless its far
/// edge would then run off the screen.
#[must_use]
pub fn card_start(beside: Single, far_edge: Single, limit: Single, flipped: Single) -> (r: Single)
    ensures
        r == if limit.below(far_edge) {
            flipped
        } else {
            beside
        },
{
    if limit.lt(far_edge) {
        flipped
    } else {
        beside
    }
}

/// Two patches whose edges are numbers in order meet exactly when they have a
/// point in common.
pub proof fn law_patches_meet_in_a_point(a: Claim, b: Claim)
    requires
        !a.left.nan() && !a.right.nan() && !a.top.nan() && !a.bottom.nan(),
        !b.left.nan() && !b.right.nan() && !b.top.nan() && !b.bottom.nan(),
        value(a.left) <= value(a.right),
        value(a.top) <= value(a.bottom),
        value(b.left) <= value(b.right),
        value(b.top) <= value(b.bottom),
    ensures
        a.meets(b) <==> exists|x: Single, y: Single|
            {
                &&& value(a.left) <= #[trigger] value(x) <= value(a.right)
                &&& value(b.left) <= value(x) <= value(b.right)
                &&& value(a.top) <= #[trigger] value(y) <= value(a.bottom)
                &&& value(b.top) <= value(y) <= value(b.bottom)
            },
        a.meets(b) <==> b.meets(a),
        value(a.right) < value(b.left) ==> !a.meets(b),
        value(b.right) < value(a.left) ==> !a.meets(b),
        value(a.bottom) < value(b.top) ==> !a.meets(b),
        value(b.bottom) < value(a.top) ==> !a.meets(b),
{
    law_numbers_are_ordered_by_value(a.left, b.right);
    law_numbers_are_ordered_by_value(b.left, a.right);
    law_numbers_are_ordered_by_value(a.top, b.bottom);
    law_numbers_are_ordered_by_value(b.top, a.bottom);
    if a.meets(b) {
        let x = if value(a.left) <= value(b.left) { b.left } else { a.left };
        let y = if value(a.top) <= value(b.top) { b.top } else { a.top };
        assert(value(a.left) <= value(x) <= value(a.right) && value(a.top) <= value(y) <= value(a.bottom));
    }
}

/// A label that is off the screen is not drawn. One on the screen is drawn
/// exactly when every nearer label that is drawn is apart from it.
pub proof fn law_a_label_is_drawn_where_there_is_room(claims: Seq<Option<Claim>>, k: int)
    requires
        0 <= k < claims.len(),
    ensures
        claims[k] is None ==> !is_drawn(claims, k),
        claims[k] is Some ==> (is_drawn(claims, k) <==> forall|j: int|
            0 <= j < k && #[trigger] is_drawn(claims, j) ==> !claims[j]->0.meets(claims[k]->0)),
{
    if claims[k] is Some && !is_drawn(claims, k) {
        law_a_dropped_label_lost_to_a_nearer_one(claims, k);
    }
    if is_drawn(claims, k) {
        assert forall|j: int| 0 <= j < k && #[trigger] is_drawn(claims, j) implies !claims[j]->0.meets(
            claims[k]->0,
        ) by {
            law_drawn_labels_are_apart(claims, j, k);
        }
    }
}

/// Every pinned label names the entry that its instance was identified as, on an
/// instance in a solid category, at that instance's distance, no further than 320
/// metres; and no solid instance of the same entry is nearer.
pub proof fn law_a_label_stands_on_the_nearest_of_its_asset(
    classification: &Classification,
    identified: Seq<Option<usize>>,
    distances: Seq<Single>,
    list: Seq<Naming>,
    k: int,
    other: int,
)
    requires
        classification.of_instance@.len() == identified.len(),
        forall|id: int|
            0 <= id < identified.len() ==> (#[trigger] classification.of_instance@[id])
                < classification.categories@.len(),
        pins(classification, identified, distances, PROPS as int, list),
        0 <= k < list.len(),
        0 <= other < identified.len(),
    ensures
        ({
            let label = list[k];
            let id = label.instance as int;
            &&& label.entry < PROPS
            &&& id < identified.len()
            &&& identified[id] == Some(label.entry)
            &&& classification.categories@[classification.of_instance@[id] as int].mode == Mode::Solid
            &&& label.distance == distances[id]
            &&& !label.distance.nan()
            &&& value(label.distance) <= value(Single { bits: 0x43A0_0000 })
            &&& identified[other] == Some(label.entry)
                && classification.categories@[classification.of_instance@[other] as int].mode == Mode::Solid
                && !distances[other].nan() ==> value(label.distance) <= value(distances[other])
            &&& identified[other] == Some(label.entry)
                && classification.categories@[classification.of_instance@[other] as int].mode == Mode::Solid
                && other < id && !distances[other].nan() ==> value(label.distance) < value(
                distances[other],
            )
        }),
{
    let label = list[k];
    assert(belongs(classification, identified, distances, label));
    assert(classification.of_instance@[label.instance as int] < classification.categories@.len());
    assert(classification.of_instance@[other] < classification.categories@.len());
    law_numbers_are_ordered_by_value(label.distance, Single { bits: 0x43A0_0000 });
    law_numbers_are_ordered_by_value(distances[other], label.distance);
    law_numbers_are_ordered_by_value(label.distance, distances[other]);
    if identified[other] == Some(label.entry)
        && classification.categories@[classification.of_instance@[other] as int].mode == Mode::Solid {
        assert(stands_for(classification, identified, label.entry, other));
    }
}

/// A solid instance that was identified and stands within 320 metres gets its
/// entry a label, and exactly one.
pub proof fn law_what_is_in_range_is_labelled(
    classification: &Classification,
    identified: Seq<Option<usize>>,
    distances: Seq<Single>,
    list: Seq<Naming>,
    id: int,
)
    requires
        classification.of_instance@.len() == identified.len(),
        classification.of_instance@[id] < classification.categories@.len(),
        identified.len() <= usize::MAX,
        pins(classification, identified, distances, PROPS as int, list),
        0 <= id < identified.len(),
        identified[id] is Some,
        identified[id]->0 < PROPS,
        classification.categories@[classification.of_instance@[id] as int].mode == Mode::Solid,
        !distances[id].nan(),
        value(distances[id]) <= value(Single { bits: 0x43A0_0000 }),
    ensures
        exists|k: int| 0 <= k < list.len() && (#[trigger] list[k]).entry == identified[id]->0,
        forall|j: int, k: int|
            0 <= j < k < list.len() ==> (#[trigger] list[j]).entry != (#[trigger] list[k]).entry,
{
    law_numbers_are_ordered_by_value(distances[id], Single { bits: 0x43A0_0000 });
    assert(stands_for(classification, identified, identified[id]->0, id));
    law_every_asset_in_range_is_labelled(
        classification,
        identified,
        distances,
        list,
        identified[id]->0,
    );
    assert forall|j: int, k: int| 0 <= j < k < list.len() implies (#[trigger] list[j]).entry != (
    #[trigger] list[k]).entry by {
        law_one_label_per_asset(classification, identified, distances, PROPS as int, list, j, k);
    }
}

/// Labels come nearest first, and those at one distance in the order of the
/// table.
pub proof fn law_labels_come_nearest_first(
    classification: &Classification,
    identified: Seq<Option<usize>>,
    distances: Seq<Single>,
    list: Seq<Naming>,
    j: int,
    k: int,
)
    requires
        pins(classification, identified, distances, PROPS as int, list),
        0 <= j < k < list.len(),
    ensures
        value(list[j].distance) <= value(list[k].distance),
        list[j].distance == list[k].distance ==> list[j].entry < list[k].entry,
{
    assert(ahead(list[j], list[k]));
    assert(belongs(classification, identified, distances, list[j]));
    assert(belongs(classification, identified, distances, list[k]));
    law_numbers_are_ordered_by_value(list[k].distance, list[j].distance);
    if list[k].distance.below(list[j].distance) {
        crate::single::law_total_order_respects_values(list[k].distance, list[j].distance);
    }
}

/// The card under the cursor names the instance under the cursor, if it was
/// identified, with its distance.
pub proof fn law_the_card_names_what_is_under_the_cursor(
    identified: Seq<Option<usize>>,
    distances: Seq<Single>,
    hovered: Option<usize>,
)
    ensures
        named(identified, distances, hovered) is Some <==> hovered is Some && hovered->0 < identified.len()
            && identified[hovered->0 as int] is Some,
        named(identified, distances, hovered) matches Some(naming) ==> {
            &&& naming.instance == hovered->0
            &&& Some(naming.entry) == identified[hovered->0 as int]
            &&& naming.distance == distances[hovered->0 as int]
        },
{
}

/// An anchor is near the frame when it lies no further than 1.2 from the middle,
/// either way, where the frame ends at one.
pub proof fn law_near_the_frame(x: Single)
    requires
        !x.nan(),
    ensures
        near_frame(x) <==> value(Single { bits: 0xBF99_999A }) <= value(x) <= value(
            Single { bits: 0x3F99_999A },
        ),
{
    law_numbers_are_ordered_by_value(x, Single { bits: 0xBF99_999A });
    law_numbers_are_ordered_by_value(Single { bits: 0x3F99_999A }, x);
}

} // verus!
