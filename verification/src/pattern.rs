//! Matching names against a table of patterns.
//!
//! A prop is recognised by the path of its material or, failing that, by the
//! stem of its model. Both tables of the crate, the categories and the
//! identifications, are ordered lists of regular expressions: the first that
//! matches the path decides, and the stem is looked at only where none does.
use regex::Regex;
use vstd::prelude::*;

verus! {

/// A compiled regular expression of the `regex` crate.
#[verifier::external_type_specification]
#[verifier::external_body]
pub struct ExRegex(regex::Regex);

/// Why the `regex` crate refused a pattern.
#[verifier::external_type_specification]
#[verifier::external_body]
pub struct ExRegexError(regex::Error);

/// Whether a compiled expression matches somewhere in a text: what
/// `Regex::is_match` answers.
pub uninterp spec fn found_by(re: regex::Regex, text: Seq<char>) -> bool;

/// Whether a pattern matches somewhere in a text: what the expression that
/// `Regex::new` makes of the pattern finds.
pub uninterp spec fn found_in(pattern: Seq<char>, text: Seq<char>) -> bool;

/// Whether `Regex::new` accepts a pattern.
pub uninterp spec fn compiles(pattern: Seq<char>) -> bool;

/// `Regex::new` either compiles the pattern or refuses it. Which of the two is a
/// property of the pattern; what makes a pattern acceptable is not stated. An
/// expression made of a pattern finds what every expression made of it does.
pub assume_specification[ regex::Regex::new ](re: &str) -> (r: Result<regex::Regex, regex::Error>)
    ensures
        r is Ok <==> compiles(re@),
        r matches Ok(compiled) ==> forall|text: Seq<char>| #[trigger]
            found_by(compiled, text) == found_in(re@, text),
;

/// `Regex::is_match` answers whether the expression matches anywhere in the
/// text, which depends on the expression and on the text alone. Which texts a
/// given pattern matches is not stated.
pub assume_specification[ regex::Regex::is_match ](re: &regex::Regex, haystack: &str) -> (r: bool)
    ensures
        r == found_by(*re, haystack@),
;

/// A compiled expression finds what a pattern does.
pub open spec fn made_of(re: regex::Regex, pattern: Seq<char>) -> bool {
    forall|text: Seq<char>| #[trigger] found_by(re, text) == found_in(pattern, text)
}

/// A pattern of one of the tables does not compile.
#[derive(Debug, Clone, Copy, PartialEq, Eq, Structural)]
pub struct BadPattern {
    /// Its place in the table.
    pub index: usize,
}

/// `index` is the place of the first `true`, or the length when there is none.
pub open spec fn is_first(claimed: Seq<bool>, index: int) -> bool {
    &&& 0 <= index <= claimed.len()
    &&& forall|j: int| 0 <= j < index ==> !claimed[j]
    &&& index < claimed.len() ==> claimed[index]
}

/// A sequence has one first `true`.
pub proof fn law_first_is_unique(claimed: Seq<bool>, a: int, b: int)
    requires
        is_first(claimed, a),
        is_first(claimed, b),
    ensures
        a == b,
{
}

/// Some claim is made.
pub open spec fn is_claimed(claimed: Seq<bool>) -> bool {
    exists|k: int| 0 <= k < claimed.len() && #[trigger] claimed[k]
}

/// `index` is the place of the pattern that decides about a prop: the first that
/// claims its material, else the first that claims its model, else the length.
pub open spec fn is_choice(by_material: Seq<bool>, by_model: Seq<bool>, index: int) -> bool {
    if is_claimed(by_material) {
        is_first(by_material, index)
    } else {
        is_first(by_model, index)
    }
}

/// One pattern decides, and once one claims the material it does so whatever the
/// model is called.
pub proof fn law_the_material_decides_first(
    by_material: Seq<bool>,
    by_model: Seq<bool>,
    other_model: Seq<bool>,
    a: int,
    b: int,
)
    requires
        is_choice(by_material, by_model, a),
        is_choice(by_material, other_model, b),
        is_claimed(by_material) || by_model == other_model,
    ensures
        a == b,
        is_claimed(by_material) ==> a < by_material.len() && by_material[a],
{
    if is_claimed(by_material) {
        let k = choose|k: int| 0 <= k < by_material.len() && #[trigger] by_material[k];
        law_first_is_unique(by_material, a, b);
        assert(by_material[k]);
    } else {
        law_first_is_unique(by_model, a, b);
    }
}

/// The place of the first claim, or the number of claims when none is made.
pub fn first_claim(claimed: &Vec<bool>) -> (r: usize)
    ensures
        is_first(claimed@, r as int),
{
    let mut i: usize = 0;
    while i < claimed.len()
        invariant
            i <= claimed@.len(),
            forall|j: int| 0 <= j < i ==> !claimed@[j],
        decreases claimed@.len() - i,
    {
        if claimed[i] {
            return i;
        }
        i += 1;
    }
    i
}

/// Compile every pattern of a table, or name the first that does not compile.
pub(crate) fn compile(patterns: &Vec<&'static str>) -> (r: Result<Vec<Regex>, BadPattern>)
    ensures
        match r {
            Ok(compiled) => {
                &&& compiled@.len() == patterns@.len()
                &&& forall|k: int| 0 <= k < patterns@.len() ==> {
                    &&& compiles(#[trigger] patterns@[k]@)
                    &&& made_of(compiled@[k], patterns@[k]@)
                }
            },
            Err(bad) => {
                &&& bad.index < patterns@.len()
                &&& !compiles(patterns@[bad.index as int]@)
                &&& forall|k: int| 0 <= k < bad.index ==> compiles(#[trigger] patterns@[k]@)
            },
        },
{
    let mut compiled: Vec<Regex> = Vec::new();
    let mut i: usize = 0;
    while i < patterns.len()
        invariant
            i <= patterns@.len(),
            compiled@.len() == i,
            forall|k: int| 0 <= k < i ==> {
                &&& compiles(#[trigger] patterns@[k]@)
                &&& made_of(compiled@[k], patterns@[k]@)
            },
        decreases patterns@.len() - i,
    {
        match Regex::new(patterns[i]) {
            Ok(re) => compiled.push(re),
            Err(_) => return Err(BadPattern { index: i }),
        }
        i += 1;
    }
    Ok(compiled)
}

/// Which of the compiled patterns match somewhere in a text.
fn claims_of(compiled: &Vec<Regex>, text: &str) -> (r: Vec<bool>)
    ensures
        r@.len() == compiled@.len(),
        forall|k: int| 0 <= k < compiled@.len() ==> (#[trigger] r@[k]) == found_by(compiled@[k], text@),
{
    let mut claimed: Vec<bool> = Vec::new();
    let mut i: usize = 0;
    while i < compiled.len()
        invariant
            i <= compiled@.len(),
            claimed@.len() == i,
            forall|k: int| 0 <= k < i ==> (#[trigger] claimed@[k]) == found_by(compiled@[k], text@),
        decreases compiled@.len() - i,
    {
        claimed.push(compiled[i].is_match(text));
        i += 1;
    }
    claimed
}

/// The place of the pattern that decides, given which patterns claim the
/// material and which the model.
pub fn choice(by_material: &Vec<bool>, by_model: &Vec<bool>) -> (r: usize)
    ensures
        is_choice(by_material@, by_model@, r as int),
{
    let first: usize = first_claim(by_material);
    if first < by_material.len() {
        assert(by_material@[first as int]);
        first
    } else {
        first_claim(by_model)
    }
}

/// Which of the compiled patterns a text is found by.
pub open spec fn finders(compiled: Seq<Regex>, text: Seq<char>) -> Seq<bool> {
    Seq::new(compiled.len(), |k: int| found_by(compiled[k], text))
}

/// The place of the compiled pattern that decides about a prop.
pub(crate) fn decide(compiled: &Vec<Regex>, material: &str, model: &str) -> (r: usize)
    ensures
        r <= compiled@.len(),
        is_choice(finders(compiled@, material@), finders(compiled@, model@), r as int),
{
    let by_material: Vec<bool> = claims_of(compiled, material);
    let by_model: Vec<bool> = claims_of(compiled, model);
    assert(by_material@ =~= finders(compiled@, material@));
    assert(by_model@ =~= finders(compiled@, model@));
    choice(&by_material, &by_model)
}

/// The pattern that decides comes before every other that claims the material,
/// and claims it itself; where none does, the same holds of the model; and where
/// none claims either there is none.
pub proof fn law_what_is_chosen(by_material: Seq<bool>, by_model: Seq<bool>, index: int, k: int)
    requires
        is_choice(by_material, by_model, index),
    ensures
        0 <= k < by_material.len() && by_material[k] ==> 0 <= index <= k && by_material[index],
        (forall|j: int| 0 <= j < by_material.len() ==> !#[trigger] by_material[j]) && 0 <= k
            < by_model.len() && by_model[k] ==> 0 <= index <= k && by_model[index],
        (forall|j: int| 0 <= j < by_material.len() ==> !#[trigger] by_material[j]) && (forall|j: int|
            0 <= j < by_model.len() ==> !#[trigger] by_model[j]) ==> index == by_model.len(),
{
    if 0 <= k < by_material.len() && by_material[k] {
        assert(is_claimed(by_material));
    }
    if 0 <= k < by_model.len() && by_model[k] && k < index && !is_claimed(by_material) {
        assert(!by_model[k]);
    }
}

/// The first claim is made, and none before it; there is none exactly when
/// nothing is claimed.
pub proof fn law_what_comes_first(claimed: Seq<bool>, index: int, k: int)
    requires
        is_first(claimed, index),
        0 <= k < claimed.len(),
        claimed[k],
    ensures
        0 <= index <= k,
        claimed[index],
{
}

} // verus!
