//! What each prop most likely represents in a real plant.
//!
//! Each entry carries a [`Confidence`] so the viewer can be honest about the
//! difference between three quite different claims:
//!
//! * **Identified** — the prop genuinely depicts this piece of equipment.
//! * **Proxy** — it does not depict it, but it is the best thing in the map to
//!   stand in for it on camera, with the mismatch stated.
//! * **Mismatch** — it depicts something real, but something that contradicts
//!   the ABWR reading. These are the ones worth knowing before filming.
//!
//! Each entry also carries links to photographs of the **real** unit, so a claim
//! can be checked against a picture instead of taken on trust. Where the nearest
//! verifiable photograph is of the wrong reactor type, the link says so rather
//! than quietly passing it off. A prop that no entry claims gets no name at all,
//! rather than a guess.
use crate::identify_table::{CONFIDENCES, LINKS, LINKS_END, PROPS, REFERENCES, TEXTS};
use crate::pattern::{compile, compiles, decide, finders, found_in, is_choice, law_the_material_decides_first, made_of, BadPattern};
use crate::scene::{Instance, Scene};
use regex::Regex;
use vstd::prelude::*;

verus! {

/// A picture of the real equipment.
pub struct Reference {
    /// What the link shows. Written to be read aloud.
    pub label: &'static str,
    /// A page of Wikimedia Commons.
    pub url: &'static str,
}

/// How strong the match between prop and real equipment is.
#[derive(Debug, Clone, Copy, PartialEq, Eq, Structural)]
pub enum Confidence {
    /// The prop depicts this.
    Identified,
    /// Not this, but the best available stand-in.
    Proxy,
    /// Real equipment, but wrong for an ABWR.
    Mismatch,
}

impl Confidence {
    /// The word shown for a confidence.
    pub open spec fn word(self) -> Seq<char> {
        match self {
            Confidence::Identified => "IDENTIFIED"@,
            Confidence::Proxy => "PROXY"@,
            Confidence::Mismatch => "MISMATCH"@,
        }
    }

    /// The colour shown for a confidence.
    pub open spec fn rgb(self) -> Seq<u8> {
        match self {
            Confidence::Identified => seq![90u8, 210u8, 140u8],
            Confidence::Proxy => seq![235u8, 170u8, 70u8],
            Confidence::Mismatch => seq![235u8, 95u8, 85u8],
        }
    }

    /// Label shown on the tooltip chip.
    #[must_use]
    pub fn tag(self) -> (r: &'static str)
        ensures
            r@ == self.word(),
            self == Confidence::Identified ==> r@ == "IDENTIFIED"@,
            self == Confidence::Proxy ==> r@ == "PROXY"@,
            self == Confidence::Mismatch ==> r@ == "MISMATCH"@,
    {
        match self {
            Confidence::Identified => "IDENTIFIED",
            Confidence::Proxy => "PROXY",
            Confidence::Mismatch => "MISMATCH",
        }
    }

    /// Chip colour: green for identified, amber for a stand-in, red for a
    /// mismatch that would undermine the narration.
    #[must_use]
    pub fn colour(self) -> (r: [u8; 3])
        ensures
            r@ == self.rgb(),
            self == Confidence::Identified ==> r@ == seq![90u8, 210u8, 140u8],
            self == Confidence::Proxy ==> r@ == seq![235u8, 170u8, 70u8],
            self == Confidence::Mismatch ==> r@ == seq![235u8, 95u8, 85u8],
    {
        let rgb: [u8; 3] = match self {
            Confidence::Identified => [90, 210, 140],
            Confidence::Proxy => [235, 170, 70],
            Confidence::Mismatch => [235, 95, 85],
        };
        assert(rgb@ =~= self.rgb());
        rgb
    }
}

/// One prop's identification.
pub struct Entry {
    /// Regular expression over the material path and the model stem.
    pub pattern: &'static str,
    /// What the geometry actually depicts.
    pub what: &'static str,
    /// The real plant item it most likely represents.
    pub real: &'static str,
    /// How good the match is.
    pub confidence: Confidence,
    /// The measurement or caveat that justifies the call.
    pub note: &'static str,
    /// Photographs of the real unit. Empty where nothing verifiable was found,
    /// which is a better answer than a plausible-looking link.
    pub refs: Vec<Reference>,
}

/// Where the photographs of entry `k` start in the table of references.
pub open spec fn links_start(k: int) -> int {
    if k == 0 {
        0
    } else {
        LINKS_END[k - 1] as int
    }
}

impl Entry {
    /// Says what the table says of prop `k`.
    pub open spec fn reads_as(self, k: int) -> bool {
        &&& self.pattern@ == TEXTS[k][0]@
        &&& self.what@ == TEXTS[k][1]@
        &&& self.real@ == TEXTS[k][2]@
        &&& self.note@ == TEXTS[k][3]@
        &&& self.confidence == CONFIDENCES[k]
        &&& self.refs@.len() == LINKS_END[k] - links_start(k)
        &&& forall|j: int| 0 <= j < self.refs@.len() ==> {
            &&& (#[trigger] self.refs@[j]).label@ == REFERENCES[links_start(k) + j][0]@
            &&& self.refs@[j].url@ == REFERENCES[links_start(k) + j][1]@
        }
    }
}

/// The photographs of the entries stand one after the other and use up the table
/// of references.
pub(crate) proof fn lemma_links_in_order(k: int)
    requires
        0 <= k < PROPS,
    ensures
        0 <= links_start(k) <= LINKS_END[k] <= LINKS,
        k == PROPS - 1 ==> LINKS_END[k] == LINKS,
{
}

/// Which entries of the table match somewhere in a text.
pub open spec fn named_by(text: Seq<char>) -> Seq<bool> {
    Seq::new(PROPS as nat, |k: int| found_in(TEXTS[k][0]@, text))
}

/// Every pattern of the table compiles.
pub open spec fn table_compiles() -> bool {
    forall|k: int| 0 <= k < PROPS ==> compiles(#[trigger] TEXTS[k][0]@)
}

/// `found` is the first entry that matches the material of a prop, or else the
/// first that matches its model, or nothing when none does either.
pub open spec fn is_identification(
    material: Seq<char>,
    model: Seq<char>,
    found: Option<usize>,
) -> bool {
    is_choice(
        named_by(material),
        named_by(model),
        match found {
            Some(k) => k as int,
            None => PROPS as int,
        },
    )
}

/// The entry of the table at place `k`.
fn entry_at(k: usize) -> (r: Entry)
    requires
        k < PROPS,
    ensures
        r.reads_as(k as int),
{
    let start: usize = if k == 0 { 0 } else { LINKS_END[k - 1] };
    let end: usize = LINKS_END[k];
    proof {
        lemma_links_in_order(k as int);
    }
    let mut refs: Vec<Reference> = Vec::new();
    let mut j: usize = start;
    while j < end
        invariant
            start == links_start(k as int),
            start <= j <= end <= LINKS,
            refs@.len() == j - start,
            forall|i: int| 0 <= i < refs@.len() ==> {
                &&& (#[trigger] refs@[i]).label@ == REFERENCES[start + i][0]@
                &&& refs@[i].url@ == REFERENCES[start + i][1]@
            },
        decreases end - j,
    {
        refs.push(Reference { label: REFERENCES[j][0], url: REFERENCES[j][1] });
        j += 1;
    }
    Entry {
        pattern: TEXTS[k][0],
        what: TEXTS[k][1],
        real: TEXTS[k][2],
        confidence: CONFIDENCES[k],
        note: TEXTS[k][3],
        refs,
    }
}

/// The whole table, in order.
pub fn entries() -> (r: Vec<Entry>)
    ensures
        r@.len() == PROPS,
        forall|k: int| 0 <= k < PROPS ==> (#[trigger] r@[k]).reads_as(k),
{
    let mut table: Vec<Entry> = Vec::new();
    let mut k: usize = 0;
    while k < PROPS
        invariant
            k <= PROPS,
            table@.len() == k,
            forall|j: int| 0 <= j < k ==> (#[trigger] table@[j]).reads_as(j),
        decreases PROPS - k,
    {
        table.push(entry_at(k));
        k += 1;
    }
    table
}

/// Compiled table, built once at startup.
pub struct Identifier {
    compiled: Vec<Regex>,
    entries: Vec<Entry>,
}

impl Identifier {
    #[verifier::type_invariant]
    spec fn holds_the_table(self) -> bool {
        &&& self.compiled@.len() == PROPS
        &&& self.entries@.len() == PROPS
        &&& forall|k: int| 0 <= k < PROPS ==> made_of(#[trigger] self.compiled@[k], TEXTS[k][0]@)
        &&& forall|k: int| 0 <= k < PROPS ==> (#[trigger] self.entries@[k]).reads_as(k)
    }

    /// Compile the table.
    ///
    /// Fails only if a built-in pattern does not compile.
    pub fn new() -> (r: Result<Self, BadPattern>)
        ensures
            match r {
                Ok(_) => table_compiles(),
                Err(bad) => {
                    &&& bad.index < PROPS
                    &&& !compiles(TEXTS[bad.index as int][0]@)
                    &&& forall|k: int| 0 <= k < bad.index ==> compiles(#[trigger] TEXTS[k][0]@)
                },
            },
    {
        let entries: Vec<Entry> = entries();
        let mut patterns: Vec<&'static str> = Vec::new();
        let mut k: usize = 0;
        while k < PROPS
            invariant
                k <= PROPS,
                entries@.len() == PROPS,
                forall|j: int| 0 <= j < PROPS ==> (#[trigger] entries@[j]).reads_as(j),
                patterns@.len() == k,
                forall|j: int| 0 <= j < k ==> (#[trigger] patterns@[j])@ == TEXTS[j][0]@,
            decreases PROPS - k,
        {
            patterns.push(entries[k].pattern);
            k += 1;
        }
        match compile(&patterns) {
            Ok(compiled) => {
                assert forall|k: int| 0 <= k < PROPS implies compiles(#[trigger] TEXTS[k][0]@) by {
                    assert(compiles(patterns@[k]@));
                }
                assert forall|k: int| 0 <= k < PROPS implies made_of(#[trigger] compiled@[k], TEXTS[k][0]@) by {
                    assert(compiles(patterns@[k]@));
                }
                Ok(Identifier { compiled, entries })
            },
            Err(bad) => {
                assert forall|k: int| 0 <= k < bad.index implies compiles(#[trigger] TEXTS[k][0]@) by {
                    assert(compiles(patterns@[k]@));
                }
                Err(bad)
            },
        }
    }

    /// The place in the table of what a prop most likely represents, matched on
    /// material path first and model stem second.
    #[must_use]
    pub fn lookup_index(&self, material: &str, model: &str) -> (r: Option<usize>)
        ensures
            is_identification(material@, model@, r),
            r matches Some(k) ==> k < PROPS,
    {
        proof {
            use_type_invariant(self);
        }
        let place: usize = decide(&self.compiled, material, model);
        assert forall|text: Seq<char>| #[trigger] finders(self.compiled@, text) == named_by(text) by {
            assert forall|k: int| 0 <= k < PROPS implies #[trigger] finders(self.compiled@, text)[k] == named_by(
                text,
            )[k] by {
                assert(made_of(self.compiled@[k], TEXTS[k][0]@));
            }
            assert(finders(self.compiled@, text) =~= named_by(text));
        }
        if place < PROPS {
            Some(place)
        } else {
            None
        }
    }

    /// The entry at a place of the table.
    #[must_use]
    pub fn entry(&self, index: usize) -> (r: &Entry)
        requires
            index < PROPS,
        ensures
            r.reads_as(index as int),
    {
        proof {
            use_type_invariant(self);
        }
        &self.entries[index]
    }

    /// What a prop most likely represents, matched on material path first and
    /// model stem second.
    #[must_use]
    pub fn lookup(&self, material: &str, model: &str) -> (r: Option<&Entry>)
        ensures
            match r {
                Some(entry) => exists|k: usize| k < PROPS && is_identification(material@, model@, Some(k))
                    && entry.reads_as(k as int),
                None => is_identification(material@, model@, None),
            },
    {
        match self.lookup_index(material, model) {
            Some(k) => {
                let entry: &Entry = self.entry(k);
                assert(is_identification(material@, model@, Some(k)) && entry.reads_as(k as int));
                Some(entry)
            },
            None => None,
        }
    }

    /// How many props the table can name.
    #[must_use]
    pub fn len(&self) -> (r: usize)
        ensures
            r == PROPS,
    {
        proof {
            use_type_invariant(self);
        }
        self.entries.len()
    }

    /// How many links to photographs of real equipment the table carries.
    #[must_use]
    pub fn reference_count(&self) -> (r: usize)
        ensures
            r == LINKS,
    {
        proof {
            use_type_invariant(self);
        }
        let mut total: usize = 0;
        let mut k: usize = 0;
        while k < self.entries.len()
            invariant
                self.entries@.len() == PROPS,
                forall|j: int| 0 <= j < PROPS ==> (#[trigger] self.entries@[j]).reads_as(j),
                k <= PROPS,
                total == if k < PROPS { links_start(k as int) } else { LINKS as int },
            decreases PROPS - k,
        {
            proof {
                lemma_links_in_order(k as int);
            }
            total = total + self.entries[k].refs.len();
            k += 1;
        }
        total
    }
}

/// The identification of one instance of a scene, if it has one.
#[must_use]
pub fn identify_instance(scene: &Scene, identifier: &Identifier, instance: usize) -> (r: Option<usize>)
    ensures
        instance < scene.instances@.len() ==> is_identification(
            scene.material_of(instance as int),
            scene.name_of(instance as int),
            r,
        ),
        instance >= scene.instances@.len() ==> r is None,
        r matches Some(k) ==> k < PROPS,
{
    if instance < scene.instances.len() {
        let placed: &Instance = &scene.instances[instance];
        identifier.lookup_index(scene.material_name(placed.material), placed.name.as_str())
    } else {
        None
    }
}

/// The identification of every instance of a scene.
#[must_use]
pub fn identify_all(scene: &Scene, identifier: &Identifier) -> (r: Vec<Option<usize>>)
    ensures
        r@.len() == scene.instances@.len(),
        forall|id: int| 0 <= id < r@.len() ==> is_identification(
            scene.material_of(id),
            scene.name_of(id),
            #[trigger] r@[id],
        ),
        forall|id: int| 0 <= id < r@.len() ==> ((#[trigger] r@[id]) matches Some(k) ==> k < PROPS),
{
    let mut named: Vec<Option<usize>> = Vec::new();
    let mut id: usize = 0;
    while id < scene.instances.len()
        invariant
            id <= scene.instances@.len(),
            named@.len() == id,
            forall|j: int| 0 <= j < id ==> is_identification(
                scene.material_of(j),
                scene.name_of(j),
                #[trigger] named@[j],
            ),
            forall|j: int| 0 <= j < id ==> ((#[trigger] named@[j]) matches Some(k) ==> k < PROPS),
        decreases scene.instances@.len() - id,
    {
        named.push(identify_instance(scene, identifier, id));
        id += 1;
    }
    named
}

/// A prop is left without a name exactly when no entry of the table matches its
/// material or its model.
pub proof fn law_no_entry_means_no_name(material: Seq<char>, model: Seq<char>, found: Option<usize>)
    requires
        is_identification(material, model, found),
        found matches Some(k) ==> k < PROPS,
    ensures
        found is None <==> forall|k: int|
            0 <= k < PROPS ==> !found_in(#[trigger] TEXTS[k][0]@, material) && !found_in(TEXTS[k][0]@, model),
{
    let by_material = named_by(material);
    let by_model = named_by(model);
    if let Some(k) = found {
        assert(by_material[k as int] == found_in(TEXTS[k as int][0]@, material));
        assert(by_model[k as int] == found_in(TEXTS[k as int][0]@, model));
    } else {
        assert forall|k: int| 0 <= k < PROPS implies !found_in(#[trigger] TEXTS[k][0]@, material) && !found_in(
            TEXTS[k][0]@,
            model,
        ) by {
            assert(!by_material[k]);
            assert(!by_model[k]);
        }
    }
}

/// The material decides before the model does: where an entry matches it, the
/// prop is what that material says, whatever its model is called.
pub proof fn law_the_material_names_a_prop(
    material: Seq<char>,
    model: Seq<char>,
    other: Seq<char>,
    k: int,
    a: Option<usize>,
    b: Option<usize>,
)
    requires
        0 <= k < PROPS,
        found_in(TEXTS[k][0]@, material),
        is_identification(material, model, a),
        is_identification(material, other, b),
        a matches Some(place) ==> place < PROPS,
        b matches Some(place) ==> place < PROPS,
    ensures
        a == b,
        a is Some,
        a->0 <= k,
{
    assert(named_by(material)[k]);
    let first = match a {
        Some(place) => place as int,
        None => PROPS as int,
    };
    let second = match b {
        Some(place) => place as int,
        None => PROPS as int,
    };
    law_the_material_decides_first(named_by(material), named_by(model), named_by(other), first, second);
}

/// Whatever is claimed as identified, the strongest claim on offer, has a
/// picture of the real unit to look at.
pub proof fn law_identified_props_have_a_picture(k: int)
    requires
        0 <= k < PROPS,
        CONFIDENCES[k] == Confidence::Identified,
    ensures
        links_start(k) < LINKS_END[k],
{
}

/// The first entry that matches the material of a prop names it: it matches, and
/// no earlier one does. Where none matches the material the first that matches
/// the model does.
pub proof fn law_the_first_entry_that_matches_names_a_prop(
    material: Seq<char>,
    model: Seq<char>,
    found: Option<usize>,
    k: int,
)
    requires
        is_identification(material, model, found),
        found matches Some(place) ==> place < PROPS,
        0 <= k < PROPS,
    ensures
        found_in(TEXTS[k][0]@, material) ==> {
            &&& found is Some
            &&& found->0 <= k
            &&& found_in(TEXTS[found->0 as int][0]@, material)
        },
        (forall|j: int| 0 <= j < PROPS ==> !#[trigger] found_in(TEXTS[j][0]@, material)) && found_in(
            TEXTS[k][0]@,
            model,
        ) ==> {
            &&& found is Some
            &&& found->0 <= k
            &&& found_in(TEXTS[found->0 as int][0]@, model)
        },
{
    let by_material = named_by(material);
    let by_model = named_by(model);
    let place = match found {
        Some(place) => place as int,
        None => PROPS as int,
    };
    assert(is_choice(by_material, by_model, place));
    assert(by_material[k] == found_in(TEXTS[k][0]@, material));
    assert(by_model[k] == found_in(TEXTS[k][0]@, model));
    if found_in(TEXTS[k][0]@, material) {
        law_the_material_decides_first(by_material, by_model, by_model, place, place);
        assert(by_material[place] == found_in(TEXTS[place][0]@, material));
        if k < place {
            assert(!by_material[k]);
        }
    }
    if (forall|j: int| 0 <= j < PROPS ==> !#[trigger] found_in(TEXTS[j][0]@, material)) && found_in(
        TEXTS[k][0]@,
        model,
    ) {
        assert(!crate::pattern::is_claimed(by_material)) by {
            if crate::pattern::is_claimed(by_material) {
                let j = choose|j: int| 0 <= j < by_material.len() && #[trigger] by_material[j];
                assert(found_in(TEXTS[j][0]@, material));
            }
        }
        if k < place {
            assert(!by_model[k]);
        }
        assert(by_model[place] == found_in(TEXTS[place][0]@, model));
    }
}

/// An entry says of a prop what the table says: how it is recognised, what it
/// depicts, what that is in a real plant, how good the match is, why, and where
/// to look at the real unit.
pub proof fn law_an_entry_says_what_the_table_says(entry: Entry, k: int, j: int)
    requires
        0 <= k < PROPS,
        entry.reads_as(k),
        0 <= j < entry.refs@.len(),
    ensures
        entry.pattern@ == TEXTS[k][0]@,
        entry.what@ == TEXTS[k][1]@,
        entry.real@ == TEXTS[k][2]@,
        entry.note@ == TEXTS[k][3]@,
        entry.confidence == CONFIDENCES[k],
        k == 0 ==> entry.refs@.len() == LINKS_END[0] && entry.refs@[j].url@ == REFERENCES[j][1]@
            && entry.refs@[j].label@ == REFERENCES[j][0]@,
        k > 0 ==> entry.refs@.len() == LINKS_END[k] - LINKS_END[k - 1] && entry.refs@[j].url@
            == REFERENCES[LINKS_END[k - 1] + j][1]@ && entry.refs@[j].label@ == REFERENCES[LINKS_END[k - 1]
            + j][0]@,
{
    assert(entry.refs@[j].label@ == REFERENCES[links_start(k) + j][0]@);
}

/// The table compiles when every pattern in it does.
pub proof fn law_when_the_table_compiles()
    ensures
        table_compiles() <==> forall|k: int| 0 <= k < PROPS ==> compiles(#[trigger] TEXTS[k][0]@),
{
}

} // verus!
