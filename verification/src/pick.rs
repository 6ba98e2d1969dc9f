//! Clicking on a pipe.
//!
//! A click is a ray cast over the scene, not a readback of what was rendered:
//! reject almost everything with a ray/box test, then run exact ray/triangle
//! over the handful of survivors, nearest box first.
//!
//! Only *solid* instances are pickable. Ghosted geometry is context, and being
//! able to select the wall in front of the run you are trying to tag would make
//! the tool infuriating.
//!
//! The geometry itself, where a ray enters a box and where it strikes a
//! triangle, is computed by the caller. This module decides which instances are
//! worth asking about, in which order, when to stop, and what was hit.
use crate::category::{Classification, Mode};
use crate::scene::{Instance, Scene};
use crate::single::{law_numbers_are_ordered_by_value, value, Single};
use vstd::prelude::*;

verus! {

/// What a click landed on.
#[derive(Debug, Clone, Copy, PartialEq, Eq, Structural)]
pub struct Hit {
    /// Which instance.
    pub instance: usize,
    /// Distance along the ray, in metres.
    pub distance: Single,
}

/// An instance whose box the ray enters, and where.
#[derive(Debug, Clone, Copy, PartialEq, Eq, Structural)]
pub struct Candidate {
    pub entry: Single,
    pub instance: usize,
}

/// An instance can be picked when it draws something, and draws it solid.
pub open spec fn pickable(scene: &Scene, classification: &Classification, id: int) -> bool {
    &&& 0 <= id < scene.instances@.len()
    &&& scene.instances@[id].index_count != 0
    &&& classification.mode_at(id) == Mode::Solid
}

/// Nearest entry first; of equal entries, the lower instance.
pub open spec fn precedes(a: Candidate, b: Candidate) -> bool {
    ||| a.entry.total_rank() < b.entry.total_rank()
    ||| a.entry.total_rank() == b.entry.total_rank() && a.instance < b.instance
}

/// A candidate is in order before another one of the list.
pub open spec fn in_order(list: Seq<Candidate>) -> bool {
    forall|i: int, j: int| 0 <= i < j < list.len() ==> precedes(#[trigger] list[i], #[trigger] list[j])
}

/// The instance is one that the first `n` instances offer as a candidate.
pub open spec fn offered(
    scene: &Scene,
    classification: &Classification,
    entries: Seq<Option<Single>>,
    n: int,
    candidate: Candidate,
) -> bool {
    &&& candidate.instance < n
    &&& pickable(scene, classification, candidate.instance as int)
    &&& entries[candidate.instance as int] == Some(candidate.entry)
}

/// The candidates among the first `n` instances, in order and all of them.
pub open spec fn is_shortlist(
    scene: &Scene,
    classification: &Classification,
    entries: Seq<Option<Single>>,
    n: int,
    list: Seq<Candidate>,
) -> bool {
    &&& in_order(list)
    &&& forall|i: int| 0 <= i < list.len() ==> offered(scene, classification, entries, n, #[trigger] list[i])
    &&& forall|c: Candidate| offered(scene, classification, entries, n, c) ==> #[trigger] list.contains(c)
}

/// What is left as the best hit once an instance has been struck at these
/// distances, triangle by triangle. A miss strikes nowhere.
pub open spec fn struck(
    best: Option<Hit>,
    instance: usize,
    strikes: Seq<Option<Single>>,
) -> Option<Hit>
    decreases strikes.len(),
{
    if strikes.len() == 0 {
        best
    } else {
        let before = struck(best, instance, strikes.drop_last());
        match strikes.last() {
            Some(t) => match before {
                Some(hit) => if t.below(hit.distance) {
                    Some(Hit { instance: instance, distance: t })
                } else {
                    before
                },
                None => Some(Hit { instance: instance, distance: t }),
            },
            None => before,
        }
    }
}

/// Everything from here on enters its box further away than what was hit.
pub open spec fn beaten(best: Option<Hit>, entry: Single) -> bool {
    match best {
        Some(hit) => hit.distance.below(entry),
        None => false,
    }
}

/// What is hit by going on through a list of candidates from place `at`.
pub open spec fn walk(
    list: Seq<Candidate>,
    at: int,
    best: Option<Hit>,
    strikes: spec_fn(usize) -> Seq<Option<Single>>,
) -> Option<Hit>
    decreases list.len() - at,
{
    if at >= list.len() || at < 0 {
        best
    } else if beaten(best, list[at].entry) {
        best
    } else {
        walk(
            list,
            at + 1,
            struck(best, list[at].instance, strikes(list[at].instance)),
            strikes,
        )
    }
}

/// The vertices of triangle `k` of an instance.
pub open spec fn corners(scene: &Scene, id: int, k: int) -> Seq<int> {
    let instance = scene.instances@[id];
    Seq::new(3, |j: int| instance.base_vertex + scene.indices@[instance.first_index + 3 * k + j])
}

/// All three vertices of triangle `k` are in the pool.
pub open spec fn resolves(scene: &Scene, id: int, k: int) -> bool {
    forall|j: int| 0 <= j < 3 ==> (#[trigger] corners(scene, id, k)[j]) < scene.vertices@.len()
}

/// The triangles among the first `n` of an instance whose vertices are all in
/// the pool, each as its three vertices.
pub open spec fn resolved(scene: &Scene, id: int, n: nat) -> Seq<Seq<int>>
    decreases n,
{
    if n == 0 {
        Seq::empty()
    } else {
        let before = resolved(scene, id, (n - 1) as nat);
        if resolves(scene, id, n - 1) {
            before.push(corners(scene, id, n - 1))
        } else {
            before
        }
    }
}

/// The triangles that an instance can be struck in: whole ones only, and none
/// when its range of indices runs out of the pool.
pub open spec fn surface(scene: &Scene, id: int) -> Seq<Seq<int>> {
    let instance = scene.instances@[id];
    if instance.first_index + instance.index_count <= scene.indices@.len() {
        resolved(scene, id, (instance.index_count / 3) as nat)
    } else {
        Seq::empty()
    }
}

/// The vertices of three corners, as the mathematics has them.
pub open spec fn as_corners(triangle: [usize; 3]) -> Seq<int> {
    Seq::new(3, |j: int| triangle[j] as int)
}

fn corner(scene: &Scene, instance: &Instance, at: usize) -> (r: Option<usize>)
    requires
        at < scene.indices@.len(),
    ensures
        match r {
            Some(v) => v == instance.base_vertex + scene.indices@[at as int] && v < scene.vertices@.len(),
            None => instance.base_vertex + scene.indices@[at as int] >= scene.vertices@.len(),
        },
{
    let vertex: u64 = instance.base_vertex as u64 + scene.indices[at] as u64;
    if vertex < scene.vertices.len() as u64 {
        Some(vertex as usize)
    } else {
        None
    }
}

/// The triangles that an instance can be struck in, each as its three vertices.
#[must_use]
pub fn triangles(scene: &Scene, id: usize) -> (r: Vec<[usize; 3]>)
    requires
        id < scene.instances@.len(),
    ensures
        r@.map_values(|t: [usize; 3]| as_corners(t)) == surface(scene, id as int),
        forall|k: int, j: int| 0 <= k < r@.len() && 0 <= j < 3 ==> (#[trigger] r@[k][j])
            < scene.vertices@.len(),
        ({
            let instance = scene.instances@[id as int];
            let whole = instance.first_index + instance.index_count <= scene.indices@.len() && forall|i: int|
                0 <= i < instance.index_count ==> instance.base_vertex + (
                #[trigger] scene.indices@[instance.first_index + i]) < scene.vertices@.len();
            whole ==> r@.len() == instance.index_count / 3 && forall|k: int, j: int|
                0 <= k < r@.len() && 0 <= j < 3 ==> (#[trigger] r@[k][j]) == instance.base_vertex
                    + scene.indices@[instance.first_index + 3 * k + j]
        }),
{
    let instance: &Instance = &scene.instances[id];
    let mut found: Vec<[usize; 3]> = Vec::new();
    let end: u64 = instance.first_index as u64 + instance.index_count as u64;
    let total: usize = scene.indices.len();
    if end > total as u64 {
        assert(found@.map_values(|t: [usize; 3]| as_corners(t)) =~= surface(scene, id as int));
        return found;
    }
    let first: usize = instance.first_index as usize;
    let count: usize = (instance.index_count / 3) as usize;
    let mut k: usize = 0;
    assert(found@.map_values(|t: [usize; 3]| as_corners(t)) =~= resolved(scene, id as int, 0));
    while k < count
        invariant
            id < scene.instances@.len(),
            *instance == scene.instances@[id as int],
            first == instance.first_index,
            count == instance.index_count / 3,
            total == scene.indices@.len(),
            first + instance.index_count <= total,
            k <= count,
            found@.map_values(|t: [usize; 3]| as_corners(t)) == resolved(scene, id as int, k as nat),
            forall|i: int, j: int| 0 <= i < found@.len() && 0 <= j < 3 ==> (#[trigger] found@[i][j])
                < scene.vertices@.len(),
        decreases count - k,
    {
        assert(3 * k + 3 <= instance.index_count);
        let at: usize = first + 3 * k;
        let a: Option<usize> = corner(scene, instance, at);
        let b: Option<usize> = corner(scene, instance, at + 1);
        let c: Option<usize> = corner(scene, instance, at + 2);
        proof {
            let three = corners(scene, id as int, k as int);
            assert(three[0] == instance.base_vertex + scene.indices@[at as int]);
            assert(three[1] == instance.base_vertex + scene.indices@[at + 1]);
            assert(three[2] == instance.base_vertex + scene.indices@[at + 2]);
        }
        match (a, b, c) {
            (Some(a), Some(b), Some(c)) => {
                let triangle: [usize; 3] = [a, b, c];
                found.push(triangle);
                assert(as_corners(triangle) =~= corners(scene, id as int, k as int));
                assert(resolves(scene, id as int, k as int));
            },
            _ => {
                assert(!resolves(scene, id as int, k as int));
            },
        }
        assert(found@.map_values(|t: [usize; 3]| as_corners(t)) =~= resolved(
            scene,
            id as int,
            (k + 1) as nat,
        ));
        k += 1;
    }
    proof {
        let read = found@.map_values(|t: [usize; 3]| as_corners(t));
        let whole = instance.first_index + instance.index_count <= scene.indices@.len() && forall|i: int|
            0 <= i < instance.index_count ==> instance.base_vertex + (
            #[trigger] scene.indices@[instance.first_index + i]) < scene.vertices@.len();
        if whole {
            law_a_click_is_tested_against_what_is_drawn(scene, id as int);
            assert(read.len() == found@.len());
            assert forall|k: int, j: int| 0 <= k < found@.len() && 0 <= j < 3 implies (
            #[trigger] found@[k][j]) == instance.base_vertex + scene.indices@[instance.first_index + 3
                * k + j] by {
                assert(read[k] == as_corners(found@[k]));
                assert(read[k][j] == found@[k][j]);
            }
        }
    }
    found
}

/// The instances worth a closer look, nearest box first.
///
/// `entries` says, for each instance, how far along the ray its box is entered,
/// or that it is not.
#[must_use]
pub fn shortlist(
    scene: &Scene,
    classification: &Classification,
    entries: &Vec<Option<Single>>,
) -> (r: Vec<Candidate>)
    requires
        classification.categories@.len() > 0,
        entries@.len() == scene.instances@.len(),
    ensures
        is_shortlist(scene, classification, entries@, scene.instances@.len() as int, r@),
{
    let mut list: Vec<Candidate> = Vec::new();
    let mut id: usize = 0;
    while id < scene.instances.len()
        invariant
            id <= scene.instances@.len(),
            classification.categories@.len() > 0,
            entries@.len() == scene.instances@.len(),
            is_shortlist(scene, classification, entries@, id as int, list@),
        decreases scene.instances@.len() - id,
    {
        let ghost before = list@;
        let takes_part: bool = scene.instances[id].index_count != 0 && classification.category_of(id).mode
            == Mode::Solid;
        match entries[id] {
            Some(entry) if takes_part => {
                let candidate: Candidate = Candidate { entry, instance: id };
                let place: usize = place_for(&list, candidate);
                list.insert(place, candidate);
                proof {
                    lemma_insert_keeps_shortlist(
                        scene,
                        classification,
                        entries@,
                        id as int,
                        before,
                        place as int,
                        candidate,
                    );
                }
            },
            _ => {
                assert forall|c: Candidate| offered(scene, classification, entries@, id + 1, c) implies
                    #[trigger] list@.contains(c) by {
                    assert(c.instance != id);
                    assert(offered(scene, classification, entries@, id as int, c));
                }
                assert forall|i: int| 0 <= i < list@.len() implies offered(
                    scene,
                    classification,
                    entries@,
                    id + 1,
                    #[trigger] list@[i],
                ) by {
                    assert(offered(scene, classification, entries@, id as int, list@[i]));
                }
            },
        }
        id += 1;
    }
    list
}

/// Where a candidate goes: behind everything that is not further away.
fn place_for(list: &Vec<Candidate>, candidate: Candidate) -> (r: usize)
    requires
        in_order(list@),
        forall|i: int| 0 <= i < list@.len() ==> (#[trigger] list@[i]).instance < candidate.instance,
    ensures
        r <= list@.len(),
        forall|i: int| 0 <= i < r ==> precedes(#[trigger] list@[i], candidate),
        forall|i: int| r <= i < list@.len() ==> precedes(candidate, #[trigger] list@[i]),
{
    let mut place: usize = list.len();
    while place > 0 && candidate.entry.before(list[place - 1].entry)
        invariant
            place <= list@.len(),
            in_order(list@),
            forall|i: int| place <= i < list@.len() ==> precedes(candidate, #[trigger] list@[i]),
        decreases place,
    {
        place -= 1;
    }
    assert forall|i: int| 0 <= i < place implies precedes(#[trigger] list@[i], candidate) by {
        let last = list@[place - 1];
        assert(i < place - 1 ==> precedes(list@[i], last));
    }
    place
}

proof fn lemma_insert_keeps_shortlist(
    scene: &Scene,
    classification: &Classification,
    entries: Seq<Option<Single>>,
    n: int,
    list: Seq<Candidate>,
    place: int,
    candidate: Candidate,
)
    requires
        0 <= n < scene.instances@.len(),
        is_shortlist(scene, classification, entries, n, list),
        0 <= place <= list.len(),
        candidate.instance == n,
        offered(scene, classification, entries, n + 1, candidate),
        forall|i: int| 0 <= i < place ==> precedes(#[trigger] list[i], candidate),
        forall|i: int| place <= i < list.len() ==> precedes(candidate, #[trigger] list[i]),
    ensures
        is_shortlist(scene, classification, entries, n + 1, list.insert(place, candidate)),
{
    let longer = list.insert(place, candidate);
    assert forall|i: int, j: int| 0 <= i < j < longer.len() implies precedes(
        #[trigger] longer[i],
        #[trigger] longer[j],
    ) by {
        let a = if i < place { i } else { i - 1 };
        let b = if j < place { j } else { j - 1 };
        if i != place {
            assert(longer[i] == list[a]);
        }
        if j != place {
            assert(longer[j] == list[b]);
        }
    }
    assert forall|i: int| 0 <= i < longer.len() implies offered(
        scene,
        classification,
        entries,
        n + 1,
        #[trigger] longer[i],
    ) by {
        if i < place {
            assert(offered(scene, classification, entries, n, list[i]));
        } else if i > place {
            assert(offered(scene, classification, entries, n, list[i - 1]));
        }
    }
    assert forall|c: Candidate| offered(scene, classification, entries, n + 1, c) implies
        #[trigger] longer.contains(c) by {
        if c.instance == n {
            assert(c == candidate);
            assert(longer[place] == c);
        } else {
            assert(offered(scene, classification, entries, n, c));
            assert(list.contains(c));
            let i = choose|i: int| 0 <= i < list.len() && list[i] == c;
            if i < place {
                assert(longer[i] == c);
            } else {
                assert(longer[i + 1] == c);
            }
        }
    }
}

/// A search under way: the candidates, how far it has come, and the best hit so
/// far.
pub struct Search {
    list: Vec<Candidate>,
    at: usize,
    best: Option<Hit>,
}

impl Search {
    /// The candidates, nearest box first.
    pub closed spec fn candidates(&self) -> Seq<Candidate> {
        self.list@
    }

    /// How many candidates have been dealt with.
    pub closed spec fn progress(&self) -> nat {
        self.at as nat
    }

    /// The nearest hit so far.
    pub closed spec fn so_far(&self) -> Option<Hit> {
        self.best
    }

    /// What the search comes to if every instance is struck as `strikes` says.
    pub open spec fn outcome(&self, strikes: spec_fn(usize) -> Seq<Option<Single>>) -> Option<Hit> {
        walk(self.candidates(), self.progress() as int, self.so_far(), strikes)
    }

    /// There is a candidate left that could beat the best hit.
    pub open spec fn goes_on(&self) -> bool {
        &&& self.progress() < self.candidates().len()
        &&& !beaten(self.so_far(), self.candidates()[self.progress() as int].entry)
    }

    /// Start a search. A ray without a direction has nothing to search.
    pub fn begin(
        scene: &Scene,
        classification: &Classification,
        aimed: bool,
        entries: &Vec<Option<Single>>,
    ) -> (r: Self)
        requires
            classification.categories@.len() > 0,
            entries@.len() == scene.instances@.len(),
        ensures
            r.progress() == 0,
            r.so_far() is None,
            aimed ==> is_shortlist(
                scene,
                classification,
                entries@,
                scene.instances@.len() as int,
                r.candidates(),
            ),
            !aimed ==> r.candidates().len() == 0,
    {
        let list: Vec<Candidate> = if aimed {
            shortlist(scene, classification, entries)
        } else {
            Vec::new()
        };
        Search { list, at: 0, best: None }
    }

    /// The instance to strike next, if the search goes on.
    #[must_use]
    pub fn next(&self) -> (r: Option<usize>)
        ensures
            match r {
                Some(id) => self.goes_on() && id == self.candidates()[self.progress() as int].instance,
                None => !self.goes_on() && forall|strikes: spec_fn(usize) -> Seq<Option<Single>>|
                    #[trigger] self.outcome(strikes) == self.so_far(),
            },
    {
        if self.at >= self.list.len() {
            return None;
        }
        let candidate: Candidate = self.list[self.at];
        match self.best {
            Some(hit) if hit.distance.lt(candidate.entry) => None,
            _ => Some(candidate.instance),
        }
    }

    /// Report where the instance that came next was struck, triangle by triangle.
    pub fn report(&mut self, strikes: &Vec<Option<Single>>)
        requires
            old(self).goes_on(),
        ensures
            final(self).candidates() == old(self).candidates(),
            final(self).progress() == old(self).progress() + 1,
            final(self).so_far() == struck(
                old(self).so_far(),
                old(self).candidates()[old(self).progress() as int].instance,
                strikes@,
            ),
            forall|all: spec_fn(usize) -> Seq<Option<Single>>|
                all(old(self).candidates()[old(self).progress() as int].instance) == strikes@
                    ==> #[trigger] final(self).outcome(all) == old(self).outcome(all),
    {
        assert(self.at < self.list.len());
        let instance: usize = self.list[self.at].instance;
        let after: usize = self.at + 1;
        let mut k: usize = 0;
        assert(strikes@.take(0) =~= Seq::empty());
        while k < strikes.len()
            invariant
                k <= strikes@.len(),
                self.list == old(self).list,
                self.at == old(self).at,
                self.best == struck(old(self).best, instance, strikes@.take(k as int)),
            decreases strikes@.len() - k,
        {
            proof {
                assert(strikes@.take(k + 1).drop_last() =~= strikes@.take(k as int));
                assert(strikes@.take(k + 1).last() == strikes@[k as int]);
            }
            match strikes[k] {
                Some(t) => {
                    let nearer: bool = match self.best {
                        Some(hit) => t.lt(hit.distance),
                        None => true,
                    };
                    if nearer {
                        self.best = Some(Hit { instance, distance: t });
                    }
                },
                None => {},
            }
            k += 1;
        }
        assert(strikes@.take(strikes@.len() as int) =~= strikes@);
        self.at = after;
    }

    /// The nearest hit so far; the answer, once there is nothing next.
    #[must_use]
    pub fn best(&self) -> (r: Option<Hit>)
        ensures
            r == self.so_far(),
    {
        self.best
    }
}

/// Where every instance is struck, by instance.
pub open spec fn strikes_by(all: Seq<Vec<Option<Single>>>) -> spec_fn(usize) -> Seq<Option<Single>> {
    |id: usize| all[id as int]@
}

/// `hit` is what a ray that enters the boxes and strikes the triangles as given
/// lands on.
pub open spec fn is_nearest(
    scene: &Scene,
    classification: &Classification,
    entries: Seq<Option<Single>>,
    strikes: spec_fn(usize) -> Seq<Option<Single>>,
    hit: Option<Hit>,
) -> bool {
    exists|list: Seq<Candidate>|
        {
            &&& #[trigger] is_shortlist(
                scene,
                classification,
                entries,
                scene.instances@.len() as int,
                list,
            )
            &&& hit == walk(list, 0, None, strikes)
        }
}

/// The nearest solid instance under a ray, if any, for a ray whose entries and
/// strikes are all known.
#[must_use]
pub fn nearest(
    scene: &Scene,
    classification: &Classification,
    aimed: bool,
    entries: &Vec<Option<Single>>,
    strikes: &Vec<Vec<Option<Single>>>,
) -> (r: Option<Hit>)
    requires
        classification.categories@.len() > 0,
        entries@.len() == scene.instances@.len(),
        strikes@.len() == scene.instances@.len(),
    ensures
        aimed ==> is_nearest(scene, classification, entries@, strikes_by(strikes@), r),
        !aimed ==> r is None,
{
    let mut search: Search = Search::begin(scene, classification, aimed, entries);
    let ghost list = search.candidates();
    let ghost all = strikes_by(strikes@);
    loop
        invariant
            search.candidates() == list,
            aimed ==> is_shortlist(
                scene,
                classification,
                entries@,
                scene.instances@.len() as int,
                list,
            ),
            !aimed ==> list.len() == 0,
            all == strikes_by(strikes@),
            strikes@.len() == scene.instances@.len(),
            search.outcome(all) == walk(list, 0, None, all),
            search.progress() <= list.len(),
        ensures
            search.candidates() == list,
            search.so_far() == walk(list, 0, None, all),
        decreases list.len() - search.progress(),
    {
        match search.next() {
            Some(id) => {
                assert(offered(
                    scene,
                    classification,
                    entries@,
                    scene.instances@.len() as int,
                    list[search.progress() as int],
                ));
                assert(all(id) == strikes@[id as int]@);
                search.report(&strikes[id]);
            },
            None => {
                assert(search.outcome(all) == search.so_far());
                break;
            },
        }
    }
    search.best()
}

/// No strike is a non-number, and none comes before the ray enters the box of
/// the instance that it strikes.
pub open spec fn strikes_lie_in_boxes(
    scene: &Scene,
    entries: Seq<Option<Single>>,
    strikes: spec_fn(usize) -> Seq<Option<Single>>,
) -> bool {
    forall|id: usize, t: Single|
        id < scene.instances@.len() && #[trigger] strikes(id).contains(Some(t)) ==> {
            &&& !t.nan()
            &&& entries[id as int] is Some
            &&& entries[id as int]->0.at_most(t)
        }
}

/// A strike of a longer list is one of the shorter list, or the last.
proof fn lemma_strikes_grow(strikes: Seq<Option<Single>>)
    requires
        strikes.len() > 0,
    ensures
        forall|t: Single|
            #![trigger strikes.contains(Some(t))]
            #![trigger strikes.drop_last().contains(Some(t))]
            strikes.contains(Some(t)) <==> strikes.drop_last().contains(Some(t)) || strikes.last()
                == Some(t),
{
    let shorter = strikes.drop_last();
    assert forall|t: Single| shorter.contains(Some(t)) || strikes.last() == Some(t) implies strikes.contains(
        Some(t),
    ) by {
        if shorter.contains(Some(t)) {
            let i = choose|i: int| 0 <= i < shorter.len() && shorter[i] == Some(t);
            assert(strikes[i] == Some(t));
        } else {
            assert(strikes[strikes.len() - 1] == Some(t));
        }
    }
    assert forall|t: Single| strikes.contains(Some(t)) implies shorter.contains(Some(t)) || strikes.last()
        == Some(t) by {
        let i = choose|i: int| 0 <= i < strikes.len() && strikes[i] == Some(t);
        if i < shorter.len() {
            assert(shorter[i] == Some(t));
        }
    }
}

/// Where the best hit comes from once an instance has been struck.
proof fn lemma_struck(best: Option<Hit>, instance: usize, strikes: Seq<Option<Single>>)
    ensures
        struck(best, instance, strikes) is None <==> best is None && forall|t: Single|
            !strikes.contains(Some(t)),
        struck(best, instance, strikes) == best || {
            let hit = struck(best, instance, strikes)->0;
            &&& hit.instance == instance
            &&& strikes.contains(Some(hit.distance))
        },
    decreases strikes.len(),
{
    if strikes.len() > 0 {
        lemma_struck(best, instance, strikes.drop_last());
        lemma_strikes_grow(strikes);
        if strikes.last() is Some {
            assert(strikes.contains(Some(strikes.last()->0)));
        }
    }
}

/// On numbers, the best hit is no further than any strike.
proof fn lemma_struck_is_least(best: Option<Hit>, instance: usize, strikes: Seq<Option<Single>>)
    requires
        best is Some ==> !best->0.distance.nan(),
        forall|t: Single| strikes.contains(Some(t)) ==> !t.nan(),
    ensures
        best is Some ==> struck(best, instance, strikes)->0.distance.at_most(best->0.distance),
        forall|t: Single|
            strikes.contains(Some(t)) ==> struck(best, instance, strikes)->0.distance.at_most(t),
    decreases strikes.len(),
{
    if strikes.len() > 0 {
        lemma_strikes_grow(strikes);
        let shorter = strikes.drop_last();
        assert forall|t: Single| shorter.contains(Some(t)) implies !t.nan() by {
            assert(strikes.contains(Some(t)));
        }
        lemma_struck_is_least(best, instance, shorter);
        lemma_struck(best, instance, shorter);
        let before = struck(best, instance, shorter);
        let after = struck(best, instance, strikes);
        assert(before is Some ==> !before->0.distance.nan());
        assert forall|t: Single| strikes.contains(Some(t)) implies after->0.distance.at_most(t) by {
            if shorter.contains(Some(t)) {
                assert(before is Some);
                assert(before->0.distance.at_most(t));
            }
        }
    }
}

/// Where the hit comes from that going on through the candidates leads to.
proof fn lemma_walk(
    list: Seq<Candidate>,
    at: int,
    best: Option<Hit>,
    strikes: spec_fn(usize) -> Seq<Option<Single>>,
)
    requires
        0 <= at <= list.len(),
    ensures
        walk(list, at, best, strikes) is None <==> best is None && forall|j: int, t: Single|
            at <= j < list.len() ==> !(#[trigger] strikes(list[j].instance).contains(Some(t))),
        walk(list, at, best, strikes) == best || {
            let hit = walk(list, at, best, strikes)->0;
            &&& strikes(hit.instance).contains(Some(hit.distance))
            &&& exists|j: int| at <= j < list.len() && (#[trigger] list[j]).instance == hit.instance
        },
    decreases list.len() - at,
{
    if at < list.len() && !beaten(best, list[at].entry) {
        let instance = list[at].instance;
        let next = struck(best, instance, strikes(instance));
        lemma_struck(best, instance, strikes(instance));
        lemma_walk(list, at + 1, next, strikes);
        if walk(list, at, best, strikes) is None {
            assert forall|j: int, t: Single| at <= j < list.len() implies !(#[trigger] strikes(
                list[j].instance,
            ).contains(Some(t))) by {
                if j == at {
                    assert(!strikes(instance).contains(Some(t)));
                }
            }
        }
    }
}

/// On numbers, with no strike before its box, nothing that the walk leaves out
/// is nearer than what it finds.
proof fn lemma_walk_is_least(
    list: Seq<Candidate>,
    at: int,
    best: Option<Hit>,
    strikes: spec_fn(usize) -> Seq<Option<Single>>,
)
    requires
        0 <= at <= list.len(),
        in_order(list),
        best is Some ==> !best->0.distance.nan(),
        forall|j: int, t: Single|
            at <= j < list.len() && #[trigger] strikes(list[j].instance).contains(Some(t)) ==> !t.nan()
                && list[j].entry.at_most(t),
    ensures
        best is Some ==> walk(list, at, best, strikes)->0.distance.at_most(best->0.distance),
        forall|j: int, t: Single|
            at <= j < list.len() && #[trigger] strikes(list[j].instance).contains(Some(t)) ==> walk(
                list,
                at,
                best,
                strikes,
            )->0.distance.at_most(t),
    decreases list.len() - at,
{
    if at < list.len() {
        let instance = list[at].instance;
        if beaten(best, list[at].entry) {
            assert forall|j: int, t: Single|
                at <= j < list.len() && #[trigger] strikes(list[j].instance).contains(Some(t)) implies best->0.distance.at_most(
                t,
            ) by {
                if j > at {
                    assert(precedes(list[at], list[j]));
                }
            }
        } else {
            assert forall|t: Single| strikes(instance).contains(Some(t)) implies !t.nan() by {
                assert(strikes(list[at].instance).contains(Some(t)));
            }
            let next = struck(best, instance, strikes(instance));
            lemma_struck(best, instance, strikes(instance));
            lemma_struck_is_least(best, instance, strikes(instance));
            lemma_walk_is_least(list, at + 1, next, strikes);
            assert forall|j: int, t: Single|
                at <= j < list.len() && #[trigger] strikes(list[j].instance).contains(Some(t)) implies walk(
                list,
                at,
                best,
                strikes,
            )->0.distance.at_most(t) by {
                if j == at {
                    assert(strikes(instance).contains(Some(t)));
                    assert(next is Some && next->0.distance.at_most(t));
                    assert(walk(list, at + 1, next, strikes)->0.distance.at_most(next->0.distance));
                }
            }
        }
    }
}

/// Two lists in order with the same members are the same list.
proof fn lemma_same_members_same_list(a: Seq<Candidate>, b: Seq<Candidate>)
    requires
        in_order(a),
        in_order(b),
        forall|c: Candidate| a.contains(c) <==> b.contains(c),
    ensures
        a == b,
    decreases a.len(),
{
    if a.len() == 0 {
        if b.len() > 0 {
            assert(b.contains(b[0]));
        }
    } else {
        let last = a.last();
        assert(a.contains(last));
        let j = choose|j: int| 0 <= j < b.len() && b[j] == last;
        let end = b.last();
        assert(b.contains(end));
        let i = choose|i: int| 0 <= i < a.len() && a[i] == end;
        if j < b.len() - 1 {
            assert(precedes(b[j], b[b.len() - 1]));
            if i < a.len() - 1 {
                assert(precedes(a[i], a[a.len() - 1]));
            }
        }
        assert(end == last);
        let c = a.drop_last();
        let d = b.drop_last();
        assert forall|x: Candidate| c.contains(x) <==> d.contains(x) by {
            if c.contains(x) {
                let p = choose|p: int| 0 <= p < c.len() && c[p] == x;
                assert(a[p] == x && a.contains(x));
                let q = choose|q: int| 0 <= q < b.len() && b[q] == x;
                assert(precedes(a[p], last));
                assert(d[q] == x);
            }
            if d.contains(x) {
                let p = choose|p: int| 0 <= p < d.len() && d[p] == x;
                assert(b[p] == x && b.contains(x));
                let q = choose|q: int| 0 <= q < a.len() && a[q] == x;
                assert(precedes(b[p], end));
                assert(c[q] == x);
            }
        }
        assert forall|p: int, q: int| 0 <= p < q < c.len() implies precedes(
            #[trigger] c[p],
            #[trigger] c[q],
        ) by {
            assert(precedes(a[p], a[q]));
        }
        assert forall|p: int, q: int| 0 <= p < q < d.len() implies precedes(
            #[trigger] d[p],
            #[trigger] d[q],
        ) by {
            assert(precedes(b[p], b[q]));
        }
        lemma_same_members_same_list(c, d);
        assert(a =~= c.push(last));
        assert(b =~= d.push(end));
    }
}

/// A ray lands on one thing: what is hit follows from where the boxes are
/// entered and where the triangles are struck.
pub proof fn law_a_ray_lands_once(
    scene: &Scene,
    classification: &Classification,
    entries: Seq<Option<Single>>,
    strikes: spec_fn(usize) -> Seq<Option<Single>>,
    a: Option<Hit>,
    b: Option<Hit>,
)
    requires
        is_nearest(scene, classification, entries, strikes, a),
        is_nearest(scene, classification, entries, strikes, b),
    ensures
        a == b,
{
    let n = scene.instances@.len() as int;
    let first = choose|list: Seq<Candidate>|
        #[trigger] is_shortlist(scene, classification, entries, n, list) && a == walk(
            list,
            0,
            None,
            strikes,
        );
    let second = choose|list: Seq<Candidate>|
        #[trigger] is_shortlist(scene, classification, entries, n, list) && b == walk(
            list,
            0,
            None,
            strikes,
        );
    assert forall|c: Candidate| first.contains(c) <==> second.contains(c) by {
        if first.contains(c) {
            let i = choose|i: int| 0 <= i < first.len() && first[i] == c;
            assert(offered(scene, classification, entries, n, first[i]));
        }
        if second.contains(c) {
            let i = choose|i: int| 0 <= i < second.len() && second[i] == c;
            assert(offered(scene, classification, entries, n, second[i]));
        }
    }
    lemma_same_members_same_list(first, second);
}

/// Whatever is picked is solid, draws something, and was struck where the hit
/// says.
pub proof fn law_only_solid_is_picked(
    scene: &Scene,
    classification: &Classification,
    entries: Seq<Option<Single>>,
    strikes: spec_fn(usize) -> Seq<Option<Single>>,
    hit: Option<Hit>,
)
    requires
        is_nearest(scene, classification, entries, strikes, hit),
        hit is Some,
    ensures
        pickable(scene, classification, hit->0.instance as int),
        strikes(hit->0.instance).contains(Some(hit->0.distance)),
{
    let n = scene.instances@.len() as int;
    let list = choose|list: Seq<Candidate>|
        #[trigger] is_shortlist(scene, classification, entries, n, list) && hit == walk(
            list,
            0,
            None,
            strikes,
        );
    lemma_walk(list, 0, None, strikes);
    let j = choose|j: int| 0 <= j < list.len() && (#[trigger] list[j]).instance == hit->0.instance;
    assert(offered(scene, classification, entries, n, list[j]));
}

/// With nothing solid there is nothing to pick.
pub proof fn law_nothing_solid_nothing_picked(
    scene: &Scene,
    classification: &Classification,
    entries: Seq<Option<Single>>,
    strikes: spec_fn(usize) -> Seq<Option<Single>>,
    hit: Option<Hit>,
)
    requires
        is_nearest(scene, classification, entries, strikes, hit),
        forall|id: int| 0 <= id < scene.instances@.len() ==> classification.mode_at(id) != Mode::Solid,
    ensures
        hit is None,
{
    if hit is Some {
        law_only_solid_is_picked(scene, classification, entries, strikes, hit);
    }
}

/// As long as nothing is struck before the ray enters its box, stopping early
/// loses nothing: a solid instance is picked exactly when one is struck, and no
/// solid instance is struck nearer than the one picked.
pub proof fn law_the_nearest_is_picked(
    scene: &Scene,
    classification: &Classification,
    entries: Seq<Option<Single>>,
    strikes: spec_fn(usize) -> Seq<Option<Single>>,
    hit: Option<Hit>,
)
    requires
        is_nearest(scene, classification, entries, strikes, hit),
        strikes_lie_in_boxes(scene, entries, strikes),
    ensures
        hit is Some <==> exists|id: usize, t: Single|
            pickable(scene, classification, id as int) && #[trigger] strikes(id).contains(Some(t)),
        forall|id: usize, t: Single|
            pickable(scene, classification, id as int) && #[trigger] strikes(id).contains(Some(t))
                ==> hit->0.distance.at_most(t),
{
    let n = scene.instances@.len() as int;
    let list = choose|list: Seq<Candidate>|
        #[trigger] is_shortlist(scene, classification, entries, n, list) && hit == walk(
            list,
            0,
            None,
            strikes,
        );
    assert forall|j: int, t: Single|
        0 <= j < list.len() && #[trigger] strikes(list[j].instance).contains(Some(t)) implies !t.nan()
        && list[j].entry.at_most(t) by {
        assert(offered(scene, classification, entries, n, list[j]));
    }
    lemma_walk(list, 0, None, strikes);
    lemma_walk_is_least(list, 0, None, strikes);
    assert forall|id: usize, t: Single|
        pickable(scene, classification, id as int) && #[trigger] strikes(id).contains(Some(t)) implies hit is Some
        && hit->0.distance.at_most(t) by {
        let candidate = Candidate { entry: entries[id as int]->0, instance: id };
        assert(offered(scene, classification, entries, n, candidate));
        assert(list.contains(candidate));
        let j = choose|j: int| 0 <= j < list.len() && list[j] == candidate;
        assert(strikes(list[j].instance).contains(Some(t)));
    }
    if hit is Some {
        law_only_solid_is_picked(scene, classification, entries, strikes, hit);
    }
}

/// What a click on an instance is tested against is what the instance draws: as
/// many triangles as its indices make, each on the three vertices that its three
/// indices lead to, as long as all of them are in the pools.
pub proof fn law_a_click_is_tested_against_what_is_drawn(scene: &Scene, id: int)
    requires
        0 <= id < scene.instances@.len(),
        scene.instances@[id].first_index + scene.instances@[id].index_count <= scene.indices@.len(),
        forall|i: int|
            0 <= i < scene.instances@[id].index_count ==> scene.instances@[id].base_vertex + (
            #[trigger] scene.indices@[scene.instances@[id].first_index + i]) < scene.vertices@.len(),
    ensures
        surface(scene, id).len() == scene.instances@[id].index_count / 3,
        forall|k: int, j: int|
            0 <= k < surface(scene, id).len() && 0 <= j < 3 ==> (#[trigger] surface(scene, id)[k][j])
                == scene.instances@[id].base_vertex + scene.indices@[scene.instances@[id].first_index + 3
                * k + j],
        forall|k: int| 0 <= k < surface(scene, id).len() ==> (#[trigger] surface(scene, id)[k]).len() == 3,
{
    lemma_all_resolve(scene, id, (scene.instances@[id].index_count / 3) as nat);
}

proof fn lemma_all_resolve(scene: &Scene, id: int, n: nat)
    requires
        0 <= id < scene.instances@.len(),
        3 * n <= scene.instances@[id].index_count,
        forall|i: int|
            0 <= i < scene.instances@[id].index_count ==> scene.instances@[id].base_vertex + (
            #[trigger] scene.indices@[scene.instances@[id].first_index + i]) < scene.vertices@.len(),
    ensures
        resolved(scene, id, n).len() == n,
        forall|k: int| 0 <= k < n ==> (#[trigger] resolved(scene, id, n)[k]) == corners(scene, id, k),
    decreases n,
{
    if n > 0 {
        lemma_all_resolve(scene, id, (n - 1) as nat);
        let first = scene.instances@[id].first_index;
        assert forall|j: int| 0 <= j < 3 implies (#[trigger] corners(scene, id, n - 1)[j])
            < scene.vertices@.len() by {
            let i = 3 * (n - 1) + j;
            assert(scene.instances@[id].base_vertex + scene.indices@[first + i] < scene.vertices@.len());
        }
        assert(resolves(scene, id, n - 1));
    }
}

/// A triangle is left out of what a click is tested against exactly when one of
/// its vertices is not in the pool; the rest stays, in order. A range of indices
/// that runs out of the pool has no triangles.
pub proof fn law_only_broken_triangles_are_left_out(scene: &Scene, id: int, k: int)
    requires
        0 <= id < scene.instances@.len(),
    ensures
        scene.instances@[id].first_index + scene.instances@[id].index_count > scene.indices@.len()
            ==> surface(scene, id).len() == 0,
        surface(scene, id).len() <= scene.instances@[id].index_count / 3,
        ({
            let instance = scene.instances@[id];
            let a = instance.base_vertex + scene.indices@[instance.first_index + 3 * k];
            let b = instance.base_vertex + scene.indices@[instance.first_index + 3 * k + 1];
            let c = instance.base_vertex + scene.indices@[instance.first_index + 3 * k + 2];
            let n = scene.vertices@.len();
            &&& instance.first_index + instance.index_count <= scene.indices@.len() && 0 <= k
                < instance.index_count / 3 && a < n && b < n && c < n ==> surface(scene, id).contains(
                seq![a, b, c],
            )
        }),
{
    let instance = scene.instances@[id];
    let count = (instance.index_count / 3) as nat;
    lemma_resolved(scene, id, count);
    let three = corners(scene, id, k);
    let a = instance.base_vertex + scene.indices@[instance.first_index + 3 * k];
    let b = instance.base_vertex + scene.indices@[instance.first_index + 3 * k + 1];
    let c = instance.base_vertex + scene.indices@[instance.first_index + 3 * k + 2];
    assert(three =~= seq![a, b, c]);
    if 0 <= k < count && a < scene.vertices@.len() && b < scene.vertices@.len() && c
        < scene.vertices@.len() {
        assert(resolves(scene, id, k)) by {
            assert forall|j: int| 0 <= j < 3 implies (#[trigger] three[j]) < scene.vertices@.len() by {}
        }
        assert(resolved(scene, id, count).contains(three));
    }
}

/// Whatever a click is tested against is a triangle that the instance draws.
pub proof fn law_nothing_else_is_tested(scene: &Scene, id: int, t: int) -> (i: int)
    requires
        0 <= id < scene.instances@.len(),
        0 <= t < surface(scene, id).len(),
    ensures
        ({
            let instance = scene.instances@[id];
            &&& 0 <= i < instance.index_count / 3
            &&& surface(scene, id)[t].len() == 3
            &&& forall|j: int|
                0 <= j < 3 ==> (#[trigger] surface(scene, id)[t][j]) == instance.base_vertex
                    + scene.indices@[instance.first_index + 3 * i + j] && surface(scene, id)[t][j]
                    < scene.vertices@.len()
        }),
{
    let count = (scene.instances@[id].index_count / 3) as nat;
    let i = lemma_resolved_at(scene, id, count, t);
    assert(corners(scene, id, i)[0] < scene.vertices@.len());
    i
}

proof fn lemma_resolved(scene: &Scene, id: int, n: nat)
    ensures
        resolved(scene, id, n).len() <= n,
        forall|k: int|
            0 <= k < n && #[trigger] resolves(scene, id, k) ==> resolved(scene, id, n).contains(
                corners(scene, id, k),
            ),
    decreases n,
{
    if n > 0 {
        lemma_resolved(scene, id, (n - 1) as nat);
        let before = resolved(scene, id, (n - 1) as nat);
        let after = resolved(scene, id, n);
        assert forall|k: int| 0 <= k < n && #[trigger] resolves(scene, id, k) implies after.contains(
            corners(scene, id, k),
        ) by {
            if k == n - 1 {
                assert(after[after.len() - 1] == corners(scene, id, k));
            } else {
                let t = choose|t: int| 0 <= t < before.len() && before[t] == corners(scene, id, k);
                assert(after[t] == corners(scene, id, k));
            }
        }
    }
}

/// Every triangle that can be struck is one of the instance's.
proof fn lemma_resolved_at(scene: &Scene, id: int, n: nat, t: int) -> (i: int)
    requires
        0 <= t < resolved(scene, id, n).len(),
    ensures
        0 <= i < n,
        resolves(scene, id, i),
        resolved(scene, id, n)[t] == corners(scene, id, i),
    decreases n,
{
    if t < resolved(scene, id, (n - 1) as nat).len() {
        lemma_resolved_at(scene, id, (n - 1) as nat, t)
    } else {
        n - 1
    }
}

/// Every instance is in a category that there is.
pub open spec fn is_assigned(scene: &Scene, classification: &Classification) -> bool {
    &&& classification.of_instance@.len() == scene.instances@.len()
    &&& forall|id: int|
        0 <= id < classification.of_instance@.len() ==> (#[trigger] classification.of_instance@[id])
            < classification.categories@.len()
}

/// The instances worth a closer look are those with something to draw, in a
/// solid category, whose box the ray enters; each is there once with the entry
/// that it has, in the total order of the entries and then of the instances.
pub proof fn law_the_shortlist(
    scene: &Scene,
    classification: &Classification,
    entries: Seq<Option<Single>>,
    list: Seq<Candidate>,
    id: usize,
)
    requires
        is_assigned(scene, classification),
        entries.len() == scene.instances@.len(),
        is_shortlist(scene, classification, entries, scene.instances@.len() as int, list),
        id < scene.instances@.len(),
    ensures
        (exists|i: int| 0 <= i < list.len() && (#[trigger] list[i]).instance == id) <==> {
            &&& scene.instances@[id as int].index_count > 0
            &&& classification.categories@[classification.of_instance@[id as int] as int].mode
                == Mode::Solid
            &&& entries[id as int] is Some
        },
        forall|i: int|
            0 <= i < list.len() ==> (#[trigger] list[i]).instance < entries.len()
                && entries[list[i].instance as int] == Some(list[i].entry),
        forall|i: int, j: int|
            0 <= i < j < list.len() ==> (#[trigger] list[i]).entry.total_rank() < (
            #[trigger] list[j]).entry.total_rank() || list[i].entry == list[j].entry
                && list[i].instance < list[j].instance,
{
    let n = scene.instances@.len() as int;
    assert(classification.of_instance@[id as int] < classification.categories@.len());
    assert forall|i: int| 0 <= i < list.len() implies (#[trigger] list[i]).instance < entries.len()
        && entries[list[i].instance as int] == Some(list[i].entry) by {
        assert(offered(scene, classification, entries, n, list[i]));
    }
    if exists|i: int| 0 <= i < list.len() && (#[trigger] list[i]).instance == id {
        let i = choose|i: int| 0 <= i < list.len() && (#[trigger] list[i]).instance == id;
        assert(offered(scene, classification, entries, n, list[i]));
    }
    if entries[id as int] is Some {
        let candidate = Candidate { entry: entries[id as int]->0, instance: id };
        if offered(scene, classification, entries, n, candidate) {
            assert(list.contains(candidate));
            let i = choose|i: int| 0 <= i < list.len() && list[i] == candidate;
            assert(list[i].instance == id);
        }
    }
    assert forall|i: int, j: int| 0 <= i < j < list.len() implies (
    #[trigger] list[i]).entry.total_rank() < (#[trigger] list[j]).entry.total_rank() || list[i].entry
        == list[j].entry && list[i].instance < list[j].instance by {
        assert(precedes(list[i], list[j]));
        if list[i].entry.total_rank() == list[j].entry.total_rank() {
            crate::single::law_total_rank_is_injective(list[i].entry, list[j].entry);
        }
    }
}

/// As long as strikes are numbers and none comes before the ray enters the box
/// of what it strikes: something is picked exactly when the ray strikes an
/// instance with something to draw in a solid category, it is such an instance,
/// and no other is struck at a lesser distance.
pub proof fn law_the_nearest_solid_strike_is_picked(
    scene: &Scene,
    classification: &Classification,
    entries: Seq<Option<Single>>,
    strikes: spec_fn(usize) -> Seq<Option<Single>>,
    hit: Option<Hit>,
)
    requires
        is_assigned(scene, classification),
        is_nearest(scene, classification, entries, strikes, hit),
        forall|id: usize, t: Single|
            id < scene.instances@.len() && #[trigger] strikes(id).contains(Some(t)) ==> {
                &&& !t.nan()
                &&& entries[id as int] is Some
                &&& !entries[id as int]->0.nan()
                &&& value(entries[id as int]->0) <= value(t)
            },
    ensures
        hit is Some <==> exists|id: usize, t: Single|
            {
                &&& id < scene.instances@.len()
                &&& scene.instances@[id as int].index_count > 0
                &&& classification.categories@[classification.of_instance@[id as int] as int].mode
                    == Mode::Solid
                &&& #[trigger] strikes(id).contains(Some(t))
            },
        hit is Some ==> {
            let id = hit->0.instance;
            &&& id < scene.instances@.len()
            &&& scene.instances@[id as int].index_count > 0
            &&& classification.categories@[classification.of_instance@[id as int] as int].mode
                == Mode::Solid
            &&& strikes(id).contains(Some(hit->0.distance))
        },
        forall|id: usize, t: Single|
            {
                &&& id < scene.instances@.len()
                &&& scene.instances@[id as int].index_count > 0
                &&& classification.categories@[classification.of_instance@[id as int] as int].mode
                    == Mode::Solid
                &&& #[trigger] strikes(id).contains(Some(t))
            } ==> value(hit->0.distance) <= value(t),
{
    assert(strikes_lie_in_boxes(scene, entries, strikes)) by {
        assert forall|id: usize, t: Single|
            id < scene.instances@.len() && #[trigger] strikes(id).contains(Some(t)) implies {
            &&& !t.nan()
            &&& entries[id as int] is Some
            &&& entries[id as int]->0.at_most(t)
        } by {
            law_numbers_are_ordered_by_value(entries[id as int]->0, t);
        }
    }
    law_the_nearest_is_picked(scene, classification, entries, strikes, hit);
    if hit is Some {
        law_only_solid_is_picked(scene, classification, entries, strikes, hit);
        let id = hit->0.instance as int;
        assert(classification.of_instance@[id] < classification.categories@.len());
    }
    assert forall|id: usize, t: Single|
        {
            &&& id < scene.instances@.len()
            &&& scene.instances@[id as int].index_count > 0
            &&& classification.categories@[classification.of_instance@[id as int] as int].mode
                == Mode::Solid
            &&& #[trigger] strikes(id).contains(Some(t))
        } implies hit is Some && value(hit->0.distance) <= value(t) by {
        assert(classification.of_instance@[id as int] < classification.categories@.len());
        assert(pickable(scene, classification, id as int));
        law_numbers_are_ordered_by_value(hit->0.distance, t);
    }
}

/// What the walk finds is nearer than what it started with, and nothing that it
/// looked at before was struck as near.
proof fn lemma_walk_takes_the_first(
    list: Seq<Candidate>,
    at: int,
    best: Option<Hit>,
    strikes: spec_fn(usize) -> Seq<Option<Single>>,
) -> (p: int)
    requires
        0 <= at <= list.len(),
        best is Some ==> !best->0.distance.nan(),
        forall|j: int, t: Single|
            at <= j < list.len() && #[trigger] strikes(list[j].instance).contains(Some(t)) ==> !t.nan(),
    ensures
        walk(list, at, best, strikes) == best || {
            let hit = walk(list, at, best, strikes)->0;
            &&& walk(list, at, best, strikes) is Some
            &&& !hit.distance.nan()
            &&& best is Some ==> hit.distance.below(best->0.distance)
            &&& at <= p < list.len()
            &&& list[p].instance == hit.instance
            &&& forall|j: int, t: Single|
                at <= j < p && #[trigger] strikes(list[j].instance).contains(Some(t))
                    ==> !t.at_most(hit.distance)
        },
    decreases list.len() - at,
{
    if at < list.len() && !beaten(best, list[at].entry) {
        let instance = list[at].instance;
        assert forall|t: Single| strikes(instance).contains(Some(t)) implies !t.nan() by {
            assert(strikes(list[at].instance).contains(Some(t)));
        }
        let next = struck(best, instance, strikes(instance));
        lemma_struck(best, instance, strikes(instance));
        lemma_struck_is_least(best, instance, strikes(instance));
        lemma_struck_is_nearer(best, instance, strikes(instance));
        let p = lemma_walk_takes_the_first(list, at + 1, next, strikes);
        let last = walk(list, at, best, strikes);
        if last == next {
            at
        } else {
            assert forall|j: int, t: Single|
                at <= j < p && #[trigger] strikes(list[j].instance).contains(Some(t)) implies !t.at_most(
                last->0.distance,
            ) by {
                if j == at {
                    assert(next is Some && next->0.distance.at_most(t));
                }
            }
            p
        }
    } else {
        at
    }
}

/// A strike that replaces the best hit is nearer than it.
proof fn lemma_struck_is_nearer(best: Option<Hit>, instance: usize, strikes: Seq<Option<Single>>)
    requires
        best is Some ==> !best->0.distance.nan(),
        forall|t: Single| strikes.contains(Some(t)) ==> !t.nan(),
    ensures
        struck(best, instance, strikes) == best || {
            &&& struck(best, instance, strikes) is Some
            &&& !struck(best, instance, strikes)->0.distance.nan()
            &&& best is Some ==> struck(best, instance, strikes)->0.distance.below(best->0.distance)
        },
    decreases strikes.len(),
{
    if strikes.len() > 0 {
        lemma_strikes_grow(strikes);
        let shorter = strikes.drop_last();
        assert forall|t: Single| shorter.contains(Some(t)) implies !t.nan() by {
            assert(strikes.contains(Some(t)));
        }
        lemma_struck_is_nearer(best, instance, shorter);
        if strikes.last() is Some {
            assert(strikes.contains(Some(strikes.last()->0)));
        }
    }
}

/// Of two solid instances that are struck at the same distance, the one whose
/// box the ray enters first is picked, and of two boxes entered at once the one
/// of the lower instance.
pub proof fn law_ties_go_to_the_box_entered_first(
    scene: &Scene,
    classification: &Classification,
    entries: Seq<Option<Single>>,
    strikes: spec_fn(usize) -> Seq<Option<Single>>,
    hit: Option<Hit>,
    other: usize,
    t: Single,
)
    requires
        is_assigned(scene, classification),
        entries.len() == scene.instances@.len(),
        is_nearest(scene, classification, entries, strikes, hit),
        forall|id: usize, t: Single|
            id < scene.instances@.len() && #[trigger] strikes(id).contains(Some(t)) ==> !t.nan(),
        hit is Some,
        other < scene.instances@.len(),
        other != hit->0.instance,
        scene.instances@[other as int].index_count > 0,
        classification.categories@[classification.of_instance@[other as int] as int].mode == Mode::Solid,
        entries[other as int] is Some,
        strikes(other).contains(Some(t)),
        value(t) <= value(hit->0.distance),
    ensures
        hit->0.instance < entries.len(),
        entries[hit->0.instance as int] is Some,
        entries[hit->0.instance as int]->0.total_rank() < entries[other as int]->0.total_rank()
            || entries[hit->0.instance as int] == entries[other as int] && hit->0.instance < other,
{
    let n = scene.instances@.len() as int;
    let list = choose|list: Seq<Candidate>|
        #[trigger] is_shortlist(scene, classification, entries, n, list) && hit == walk(
            list,
            0,
            None,
            strikes,
        );
    assert forall|j: int, t: Single|
        0 <= j < list.len() && #[trigger] strikes(list[j].instance).contains(Some(t)) implies !t.nan() by {
        assert(offered(scene, classification, entries, n, list[j]));
    }
    let p = lemma_walk_takes_the_first(list, 0, None, strikes);
    assert(offered(scene, classification, entries, n, list[p]));
    let candidate = Candidate { entry: entries[other as int]->0, instance: other };
    assert(classification.of_instance@[other as int] < classification.categories@.len());
    assert(offered(scene, classification, entries, n, candidate));
    assert(list.contains(candidate));
    let q = choose|q: int| 0 <= q < list.len() && list[q] == candidate;
    assert(strikes(list[q].instance).contains(Some(t)));
    law_numbers_are_ordered_by_value(t, hit->0.distance);
    assert(p < q);
    assert(precedes(list[p], list[q]));
    if list[p].entry.total_rank() == list[q].entry.total_rank() {
        crate::single::law_total_rank_is_injective(list[p].entry, list[q].entry);
    }
}

/// A search that is carried on to its end finds the nearest.
pub proof fn law_a_search_finds_the_nearest(
    scene: &Scene,
    classification: &Classification,
    entries: Seq<Option<Single>>,
    strikes: spec_fn(usize) -> Seq<Option<Single>>,
    search: &Search,
)
    requires
        search.progress() == 0,
        search.so_far() is None,
        is_shortlist(
            scene,
            classification,
            entries,
            scene.instances@.len() as int,
            search.candidates(),
        ),
    ensures
        is_nearest(scene, classification, entries, strikes, search.outcome(strikes)),
{
}

/// A search goes on as long as there is a candidate left whose box is not entered
/// further away than the best hit so far.
pub proof fn law_when_a_search_goes_on(search: &Search)
    requires
        search.progress() < search.candidates().len(),
        !search.candidates()[search.progress() as int].entry.nan(),
        search.so_far() is Some ==> !search.so_far()->0.distance.nan(),
    ensures
        search.goes_on() <==> search.so_far() is None || value(
            search.candidates()[search.progress() as int].entry,
        ) <= value(search.so_far()->0.distance),
{
    if search.so_far() is Some {
        law_numbers_are_ordered_by_value(
            search.so_far()->0.distance,
            search.candidates()[search.progress() as int].entry,
        );
    }
}

/// One more strike replaces the best hit when there was none or when it is
/// nearer, and a miss changes nothing.
pub proof fn law_a_strike_counts_if_it_is_nearer(
    best: Option<Hit>,
    instance: usize,
    strikes: Seq<Option<Single>>,
    strike: Option<Single>,
)
    requires
        strike is Some ==> !strike->0.nan(),
        struck(best, instance, strikes) is Some ==> !struck(best, instance, strikes)->0.distance.nan(),
    ensures
        struck(best, instance, Seq::empty()) == best,
        ({
            let before = struck(best, instance, strikes);
            let after = struck(best, instance, strikes.push(strike));
            let nearer = strike is Some && (before is None || value(strike->0) < value(
                before->0.distance,
            ));
            &&& nearer ==> after == Some(Hit { instance, distance: strike->0 })
            &&& !nearer ==> after == before
        }),
{
    assert(strikes.push(strike).drop_last() =~= strikes);
    let before = struck(best, instance, strikes);
    if strike is Some && before is Some {
        law_numbers_are_ordered_by_value(strike->0, before->0.distance);
    }
}

/// An instance is struck where the list at its place says.
pub proof fn law_where_an_instance_is_struck(all: Seq<Vec<Option<Single>>>, id: usize)
    requires
        id < all.len(),
    ensures
        strikes_by(all)(id) == all[id as int]@,
{
}

} // verus!
