//! The view that the viewer starts in, as asked for on the command line.
use crate::category::{pipes_mode, plant_mode, Category, Classification, Mode};
use crate::single::Single;
use crate::text::same_text;
use vstd::prelude::*;

verus! {

/// The preset is none that there is.
#[derive(Debug, Clone, Copy, PartialEq, Eq, Structural)]
pub struct UnknownPreset;

/// An id is that of no category. `at` is its place among those asked for.
#[derive(Debug, Clone, Copy, PartialEq, Eq, Structural)]
pub struct NotACategory {
    pub at: usize,
}

/// The mode that a preset gives to a category.
pub open spec fn preset_mode(name: Seq<char>, id: Seq<char>) -> Option<Mode> {
    if name == "plant"@ {
        Some(plant_mode(id))
    } else if name == "pipes"@ {
        Some(pipes_mode(id))
    } else if name == "everything"@ || name == "all"@ {
        Some(Mode::Solid)
    } else {
        None
    }
}

/// Start in a preset: `plant`, `pipes` or `everything`, which may also be called
/// `all`.
pub fn start_in(classification: &mut Classification, name: &str) -> (r: Result<(), UnknownPreset>)
    ensures
        final(classification).of_instance == old(classification).of_instance,
        final(classification).categories@.len() == old(classification).categories@.len(),
        r is Ok <==> name@ == "plant"@ || name@ == "pipes"@ || name@ == "everything"@ || name@ == "all"@,
        forall|k: int|
            0 <= k < old(classification).categories@.len() ==> (
            #[trigger] final(classification).categories@[k]) == match preset_mode(
                name@,
                old(classification).categories@[k].id@,
            ) {
                Some(mode) => old(classification).categories@[k].drawn_as(mode),
                None => old(classification).categories@[k],
            },
{
    if same_text(name, "plant") {
        classification.preset_plant();
    } else if same_text(name, "pipes") {
        classification.preset_pipes_only();
    } else if same_text(name, "everything") || same_text(name, "all") {
        classification.preset_everything();
    } else {
        return Err(UnknownPreset);
    }
    Ok(())
}

/// Three numbers, if there are three.
#[must_use]
pub fn triple(numbers: &Vec<Single>) -> (r: Option<[Single; 3]>)
    ensures
        r is Some <==> numbers@.len() == 3,
        r is Some ==> r->0@ == numbers@,
{
    if numbers.len() == 3 {
        let three: [Single; 3] = [numbers[0], numbers[1], numbers[2]];
        assert(three@ =~= numbers@);
        Some(three)
    } else {
        None
    }
}

/// The first category with an id is this one.
pub open spec fn is_first_with(categories: Seq<Category>, id: Seq<char>, k: int) -> bool {
    &&& 0 <= k < categories.len()
    &&& categories[k].id@ == id
    &&& forall|j: int| 0 <= j < k ==> (#[trigger] categories[j]).id@ != id
}

/// Some category has this id.
pub open spec fn is_category(categories: Seq<Category>, id: Seq<char>) -> bool {
    exists|k: int| 0 <= k < categories.len() && (#[trigger] categories[k]).id@ == id
}

/// Start with one category solid and everything else hidden.
pub fn solo(classification: &mut Classification, id: &str) -> (r: Result<(), NotACategory>)
    ensures
        final(classification).of_instance == old(classification).of_instance,
        final(classification).categories@.len() == old(classification).categories@.len(),
        match r {
            Ok(()) => {
                &&& is_category(old(classification).categories@, id@)
                &&& forall|k: int|
                    0 <= k < old(classification).categories@.len() ==> (
                    #[trigger] final(classification).categories@[k])
                        == old(classification).categories@[k].drawn_as(
                        if is_first_with(old(classification).categories@, id@, k) {
                            Mode::Solid
                        } else {
                            Mode::Hidden
                        },
                    )
            },
            Err(_) => {
                &&& !is_category(old(classification).categories@, id@)
                &&& final(classification).categories@ == old(classification).categories@
            },
        },
{
    match classification.index_of(id) {
        Some(index) => {
            classification.set_all(Mode::Hidden);
            classification.categories[index].mode = Mode::Solid;
            assert(old(classification).categories@[index as int].id@ == id@);
            Ok(())
        },
        None => Err(NotACategory { at: 0 }),
    }
}

/// Some id asked for is that of category `k`. An empty one asks for nothing.
pub open spec fn asked_for(categories: Seq<Category>, wanted: Seq<&str>, k: int) -> bool {
    exists|w: int|
        0 <= w < wanted.len() && (#[trigger] wanted[w])@.len() > 0 && is_first_with(
            categories,
            wanted[w]@,
            k,
        )
}

/// An id asked for makes no sense.
pub open spec fn is_wrong(categories: Seq<Category>, wanted: Seq<&str>, w: int) -> bool {
    &&& 0 <= w < wanted.len()
    &&& wanted[w]@.len() > 0
    &&& !is_category(categories, wanted[w]@)
}

/// Keep the categories asked for solid and hide everything else. An id that is
/// that of no category changes nothing.
pub fn keep(classification: &mut Classification, wanted: &Vec<&str>) -> (r: Result<(), NotACategory>)
    ensures
        final(classification).of_instance == old(classification).of_instance,
        final(classification).categories@.len() == old(classification).categories@.len(),
        match r {
            Ok(()) => {
                &&& forall|w: int| !is_wrong(old(classification).categories@, wanted@, w)
                &&& forall|k: int|
                    0 <= k < old(classification).categories@.len() ==> (
                    #[trigger] final(classification).categories@[k])
                        == old(classification).categories@[k].drawn_as(
                        if asked_for(old(classification).categories@, wanted@, k) {
                            Mode::Solid
                        } else {
                            Mode::Hidden
                        },
                    )
            },
            Err(wrong) => {
                &&& is_wrong(old(classification).categories@, wanted@, wrong.at as int)
                &&& forall|w: int| w < wrong.at ==> !is_wrong(old(classification).categories@, wanted@, w)
                &&& final(classification).categories@ == old(classification).categories@
            },
        },
{
    let ghost categories = classification.categories@;
    assert(classification.categories.len() == categories.len());
    let mut found: Vec<usize> = Vec::new();
    let mut w: usize = 0;
    while w < wanted.len()
        invariant
            w <= wanted@.len(),
            categories.len() <= usize::MAX,
            classification.categories@ == categories,
            *classification == *old(classification),
            forall|v: int| v < w ==> !is_wrong(categories, wanted@, v),
            forall|i: int|
                0 <= i < found@.len() ==> (#[trigger] found@[i]) < categories.len() && asked_for(
                    categories,
                    wanted@,
                    found@[i] as int,
                ),
            forall|v: int, k: int|
                0 <= v < w && wanted@[v]@.len() > 0 && #[trigger] is_first_with(
                    categories,
                    wanted@[v]@,
                    k,
                ) ==> found@.contains(k as usize),
        decreases wanted@.len() - w,
    {
        if !wanted[w].is_empty() {
            match classification.index_of(wanted[w]) {
                Some(index) => {
                    let ghost before = found@;
                    found.push(index);
                    proof {
                        assert(is_first_with(categories, wanted@[w as int]@, index as int));
                        assert(asked_for(categories, wanted@, index as int));
                        assert(categories[index as int].id@ == wanted@[w as int]@);
                        assert forall|v: int, k: int|
                            0 <= v < w + 1 && wanted@[v]@.len() > 0 && #[trigger] is_first_with(
                                categories,
                                wanted@[v]@,
                                k,
                            ) implies found@.contains(k as usize) by {
                            if v == w {
                                assert(k == index);
                                assert(found@[found@.len() - 1] == index);
                            } else {
                                assert(before.contains(k as usize));
                                let i = choose|i: int| 0 <= i < before.len() && before[i] == k as usize;
                                assert(found@[i] == k as usize);
                            }
                        }
                    }
                },
                None => {
                    return Err(NotACategory { at: w });
                },
            }
        }
        w += 1;
    }
    classification.set_all(Mode::Hidden);
    let mut i: usize = 0;
    while i < found.len()
        invariant
            i <= found@.len(),
            classification.of_instance == old(classification).of_instance,
            classification.categories@.len() == categories.len(),
            categories.len() <= usize::MAX,
            forall|j: int| 0 <= j < found@.len() ==> (#[trigger] found@[j]) < categories.len(),
            forall|k: int|
                0 <= k < categories.len() ==> (#[trigger] classification.categories@[k])
                    == categories[k].drawn_as(
                    if found@.take(i as int).contains(k as usize) {
                        Mode::Solid
                    } else {
                        Mode::Hidden
                    },
                ),
        decreases found@.len() - i,
    {
        let index: usize = found[i];
        classification.categories[index].mode = Mode::Solid;
        proof {
            let shorter = found@.take(i as int);
            let longer = found@.take(i + 1);
            assert(longer =~= shorter.push(index));
            assert forall|k: usize| longer.contains(k) <==> shorter.contains(k) || k == index by {
                if shorter.contains(k) {
                    let j = choose|j: int| 0 <= j < shorter.len() && shorter[j] == k;
                    assert(longer[j] == k);
                }
                if k == index {
                    assert(longer[i as int] == k);
                }
            }
        }
        i += 1;
    }
    proof {
        assert(found@.take(found@.len() as int) =~= found@);
        assert forall|k: int| 0 <= k < categories.len() implies found@.contains(k as usize) == asked_for(
            categories,
            wanted@,
            k,
        ) by {
            if found@.contains(k as usize) {
                let j = choose|j: int| 0 <= j < found@.len() && found@[j] == k as usize;
                assert(asked_for(categories, wanted@, found@[j] as int));
            }
            if asked_for(categories, wanted@, k) {
                let v = choose|v: int|
                    0 <= v < wanted@.len() && (#[trigger] wanted@[v])@.len() > 0 && is_first_with(
                        categories,
                        wanted@[v]@,
                        k,
                    );
                assert(is_first_with(categories, wanted@[v]@, k));
            }
        }
    }
    Ok(())
}

/// The presets that can be asked for by name: the plant view, the pipes view, and
/// everything under either of its two names.
pub proof fn law_presets_by_name(id: Seq<char>)
    ensures
        preset_mode("plant"@, id) == Some(plant_mode(id)),
        preset_mode("pipes"@, id) == Some(pipes_mode(id)),
        preset_mode("everything"@, id) == Some(Mode::Solid),
        preset_mode("all"@, id) == Some(Mode::Solid),
{
    reveal_strlit("plant");
    reveal_strlit("pipes");
    reveal_strlit("everything");
    reveal_strlit("all");
    assert("plant"@[1] != "pipes"@[1]);
    assert("plant"@.len() != "everything"@.len() && "plant"@.len() != "all"@.len());
    assert("pipes"@.len() != "everything"@.len() && "pipes"@.len() != "all"@.len());
}

/// A name that is none of these changes nothing.
pub proof fn law_no_other_preset(name: Seq<char>, id: Seq<char>)
    requires
        name != "plant"@,
        name != "pipes"@,
        name != "everything"@,
        name != "all"@,
    ensures
        preset_mode(name, id) is None,
{
}

/// Where no two categories share an id, asking for one by its id means that one:
/// it is the first with the id, and there is no other.
pub proof fn law_an_id_asks_for_one_category(categories: Seq<Category>, id: Seq<char>, k: int)
    requires
        forall|a: int, b: int|
            0 <= a < b < categories.len() ==> (#[trigger] categories[a]).id@ != (
            #[trigger] categories[b]).id@,
        0 <= k < categories.len(),
    ensures
        is_first_with(categories, id, k) <==> categories[k].id@ == id,
        is_category(categories, id) <==> exists|j: int|
            0 <= j < categories.len() && (#[trigger] categories[j]).id@ == id,
{
}

/// Where no two categories share an id, a category is kept exactly when its id is
/// one of those asked for, as long as it has one.
pub proof fn law_what_is_asked_for_is_kept(categories: Seq<Category>, wanted: Seq<&str>, k: int)
    requires
        forall|a: int, b: int|
            0 <= a < b < categories.len() ==> (#[trigger] categories[a]).id@ != (
            #[trigger] categories[b]).id@,
        0 <= k < categories.len(),
        categories[k].id@.len() > 0,
    ensures
        asked_for(categories, wanted, k) <==> exists|w: int|
            0 <= w < wanted.len() && (#[trigger] wanted[w])@ == categories[k].id@,
{
    if asked_for(categories, wanted, k) {
        let w = choose|w: int|
            0 <= w < wanted.len() && (#[trigger] wanted[w])@.len() > 0 && is_first_with(
                categories,
                wanted[w]@,
                k,
            );
        assert(wanted[w]@ == categories[k].id@);
    }
    if exists|w: int| 0 <= w < wanted.len() && (#[trigger] wanted[w])@ == categories[k].id@ {
        let w = choose|w: int| 0 <= w < wanted.len() && (#[trigger] wanted[w])@ == categories[k].id@;
        assert(is_first_with(categories, wanted[w]@, k));
        assert(wanted[w]@.len() > 0);
    }
}

/// An id asked for is wrong exactly when it is not empty and no category has it.
pub proof fn law_what_is_wrong_to_ask_for(categories: Seq<Category>, wanted: Seq<&str>, w: int)
    requires
        0 <= w < wanted.len(),
    ensures
        is_wrong(categories, wanted, w) <==> wanted[w]@.len() > 0 && forall|k: int|
            0 <= k < categories.len() ==> (#[trigger] categories[k]).id@ != wanted[w]@,
{
}

} // verus!
