//! The in-window control panel, as far as it decides anything.
//!
//! The panel owns nothing about the scene. It reads and changes a
//! classification, reports whether anything changed, and leaves the caller to
//! rebuild the draw lists, which keeps the rebuild out of the drawing of the
//! panel and makes it obvious when it happens.
//!
//! What is written in it is here too, line by line; how a line looks is up to
//! whoever draws it.
use crate::category::{lowered, pipes_mode, plant_mode, raised, Category, Classification, Mode};
use crate::draw::DrawStats;
use crate::identify::{Confidence, Entry, Reference};
use crate::scene::Scene;
use crate::single::Single;
use crate::text::{decimal, decimal_of, joined};
use vstd::prelude::*;

verus! {

/// What the panel wants the app to do after a frame.
#[derive(Debug, Clone, Copy, PartialEq, Eq, Structural)]
pub struct Response {
    /// A category's mode or colour changed; rebuild the draw lists.
    pub dirty: bool,
    /// Re-frame the camera on what is now visible.
    pub frame_visible: bool,
    /// The pointer is over the panel, so the viewport must ignore this click.
    pub wants_pointer: bool,
    /// The panel has keyboard focus, so movement keys must be ignored.
    pub wants_keyboard: bool,
}

impl Default for Response {
    /// Nothing to do.
    fn default() -> (r: Self)
        ensures
            !r.dirty,
            !r.frame_visible,
            !r.wants_pointer,
            !r.wants_keyboard,
    {
        Response { dirty: false, frame_visible: false, wants_pointer: false, wants_keyboard: false }
    }
}

/// What the app tells the panel about the thing the user last clicked. Entries
/// are places in the identification table.
pub struct Selection {
    /// The picked instance, if any.
    pub instance: Option<usize>,
    /// Its asset name, for the console-style readout.
    pub name: String,
    /// What the review says it is, if it says anything.
    pub entry: Option<usize>,
    /// The last thing the cursor named, kept after it moves away.
    ///
    /// Without this the panel is unusable: the reference links only appear
    /// while something is hovered, and moving the pointer towards them takes it
    /// off the geometry, so the links disappear before they can be clicked.
    pub sticky: Option<usize>,
}

/// What the review says of an instance, if there is such an instance.
pub open spec fn identified_as(identified: Seq<Option<usize>>, instance: Option<usize>) -> Option<usize> {
    match instance {
        Some(id) => if id < identified.len() {
            identified[id as int]
        } else {
            None
        },
        None => None,
    }
}

impl Selection {
    /// What to tell the panel about a picked instance.
    #[must_use]
    pub fn of(
        scene: &Scene,
        identified: &Vec<Option<usize>>,
        selected: Option<usize>,
        sticky: Option<usize>,
    ) -> (r: Self)
        ensures
            r.instance == selected,
            r.sticky == sticky,
            r.entry == identified_as(identified@, selected),
            r.name@ == if selected is Some && selected->0 < scene.instances@.len() {
                scene.name_of(selected->0 as int)
            } else {
                Seq::empty()
            },
    {
        let mut name: String = String::new();
        let mut entry: Option<usize> = None;
        if let Some(id) = selected {
            if id < scene.instances.len() {
                name = String::from_str(scene.instances[id].name.as_str());
            }
            if id < identified.len() {
                entry = identified[id];
            }
        }
        Selection { instance: selected, name, entry, sticky }
    }

    /// Which entry the panel shows: what was clicked, else what is under the
    /// cursor, else what the cursor named last.
    pub open spec fn shown(&self, hovered: Option<usize>) -> Option<usize> {
        if self.entry is Some {
            self.entry
        } else if hovered is Some {
            hovered
        } else {
            self.sticky
        }
    }

    /// Which entry the panel shows, given what is under the cursor.
    #[must_use]
    pub fn matched(&self, hovered: Option<usize>) -> (r: Option<usize>)
        ensures
            r == self.shown(hovered),
    {
        match self.entry {
            Some(_) => self.entry,
            None => match hovered {
                Some(_) => hovered,
                None => self.sticky,
            },
        }
    }
}

/// A click stays put: once something identified is picked, the panel shows it,
/// whatever the cursor does.
pub proof fn law_a_click_stays_put(selection: &Selection, hovered: Option<usize>, later: Option<usize>)
    requires
        selection.entry is Some,
    ensures
        selection.shown(hovered) == selection.shown(later),
        selection.shown(hovered) == selection.entry,
{
}

/// What can be clicked in the panel.
#[derive(Debug, Clone, Copy)]
pub enum Click {
    ProcessPlant,
    PipesOnly,
    WholeMap,
    GhostHidden,
    HideGhosted,
    FrameVisible,
    /// One of the three mode buttons of a category.
    Mode(usize, Mode),
    /// The swatch of a category was changed.
    Colour(usize, [Single; 3]),
}

/// What a click makes of category `k`.
pub open spec fn clicked(click: Click, categories: Seq<Category>, k: int) -> Category {
    let category = categories[k];
    match click {
        Click::ProcessPlant => category.drawn_as(plant_mode(category.id@)),
        Click::PipesOnly => category.drawn_as(pipes_mode(category.id@)),
        Click::WholeMap => category.drawn_as(Mode::Solid),
        Click::GhostHidden => category.drawn_as(raised(category.mode)),
        Click::HideGhosted => category.drawn_as(lowered(category.mode)),
        Click::FrameVisible => category,
        Click::Mode(index, mode) => if index == k {
            category.drawn_as(mode)
        } else {
            category
        },
        Click::Colour(index, colour) => if index == k {
            Category { colour, ..category }
        } else {
            category
        },
    }
}

/// Whether a click calls for a rebuild. Choosing the mode that a category
/// already has does not.
pub open spec fn dirties(click: Click, categories: Seq<Category>) -> bool {
    match click {
        Click::FrameVisible => false,
        Click::Mode(index, mode) => index < categories.len() && categories[index as int].mode != mode,
        Click::Colour(index, _) => index < categories.len(),
        _ => true,
    }
}

/// Act on a click in the panel.
pub fn on_click(click: Click, classification: &mut Classification, response: &mut Response)
    ensures
        final(classification).of_instance == old(classification).of_instance,
        final(classification).categories@.len() == old(classification).categories@.len(),
        forall|k: int|
            0 <= k < old(classification).categories@.len() ==> (
            #[trigger] final(classification).categories@[k]) == clicked(
                click,
                old(classification).categories@,
                k,
            ),
        *final(response) == (Response {
            dirty: old(response).dirty || dirties(click, old(classification).categories@),
            frame_visible: old(response).frame_visible || click is FrameVisible,
            ..*old(response)
        }),
{
    match click {
        Click::ProcessPlant => {
            classification.preset_plant();
            response.dirty = true;
        },
        Click::PipesOnly => {
            classification.preset_pipes_only();
            response.dirty = true;
        },
        Click::WholeMap => {
            classification.preset_everything();
            response.dirty = true;
        },
        Click::GhostHidden => {
            classification.ghost_hidden();
            response.dirty = true;
        },
        Click::HideGhosted => {
            classification.hide_ghosted();
            response.dirty = true;
        },
        Click::FrameVisible => {
            response.frame_visible = true;
        },
        Click::Mode(index, mode) => {
            if index < classification.categories.len() && classification.categories[index].mode != mode {
                classification.categories[index].mode = mode;
                response.dirty = true;
            }
        },
        Click::Colour(index, colour) => {
            if index < classification.categories.len() {
                classification.categories[index].colour = colour;
                response.dirty = true;
            }
        },
    }
}

/// The digit that cycles a category: one to nine for the first nine, zero for
/// the tenth, none for the rest.
pub open spec fn digit_of(index: int) -> Option<int> {
    if index < 9 {
        Some(index + 1)
    } else if index == 9 {
        Some(0)
    } else {
        None
    }
}

/// The digit that cycles a category.
#[must_use]
pub fn key_digit(index: usize) -> (r: Option<u8>)
    ensures
        r is Some <==> digit_of(index as int) is Some,
        r is Some ==> r->0 == digit_of(index as int)->0,
{
    if index < 9 {
        Some(index as u8 + 1)
    } else if index == 9 {
        Some(0)
    } else {
        None
    }
}

/// The legend tells the truth: the digit shown for a category is the key that
/// cycles it.
pub proof fn law_the_legend_is_right(index: int)
    requires
        0 <= index,
        digit_of(index) is Some,
    ensures
        crate::controls::meaning(crate::controls::Key::Digit(digit_of(index)->0 as u8)) == Some(
            crate::controls::ViewKey::Category(index as usize),
        ),
{
}

/// What the row of a category says: its key, if it has one, and its label.
#[must_use]
pub fn row_label(index: usize, label: &str) -> (r: String)
    ensures
        r@ == match digit_of(index as int) {
            Some(digit) => decimal(digit as nat) + "  "@ + label@,
            None => "   "@ + label@,
        },
{
    match key_digit(index) {
        Some(digit) => {
            let mut text: String = decimal_of(digit as u64);
            text.append("  ");
            text.append(label);
            text
        },
        None => joined("   ", label),
    }
}

/// What the button of a mode says.
#[must_use]
pub fn mode_letter(mode: Mode) -> (r: &'static str)
    ensures
        r@ == match mode {
            Mode::Solid => "S"@,
            Mode::Ghosted => "G"@,
            Mode::Hidden => "—"@,
        },
{
    match mode {
        Mode::Solid => "S",
        Mode::Ghosted => "G",
        Mode::Hidden => "—",
    }
}

/// What is drawn, in a line.
#[must_use]
pub fn stats_line(stats: DrawStats) -> (r: String)
    ensures
        r@ == decimal(stats.solid as nat) + " solid  "@ + decimal(stats.ghosted as nat) + " ghost  "@
            + decimal(stats.triangles as nat) + " tris"@,
{
    let mut text: String = decimal_of(stats.solid as u64);
    text.append(" solid  ");
    text.append(decimal_of(stats.ghosted as u64).as_str());
    text.append(" ghost  ");
    text.append(decimal_of(stats.triangles).as_str());
    text.append(" tris");
    text
}

/// What a line of text is, for whoever decides how it looks.
#[derive(Debug, Clone, Copy, PartialEq, Eq, Structural)]
pub enum Style {
    /// How strong the match is.
    Tag,
    /// Which instance was picked.
    Instance,
    /// What the geometry depicts.
    What,
    /// The real item that it represents.
    Real,
    /// The measurement or caveat.
    Note,
    /// There is nothing to show yet.
    Prompt,
    /// Something the reader could do or look for.
    Hint,
    /// What the links below are.
    Section,
    /// A photograph of the real unit.
    Link,
}

/// A line of text, with where it leads if it is a link.
pub struct Line {
    pub style: Style,
    pub text: String,
    pub url: Option<&'static str>,
}

impl View for Line {
    type V = (Style, Seq<char>, Option<Seq<char>>);

    open spec fn view(&self) -> (Style, Seq<char>, Option<Seq<char>>) {
        (
            self.style,
            self.text@,
            match self.url {
                Some(url) => Some(url@),
                None => None,
            },
        )
    }
}

/// A line that leads nowhere.
pub open spec fn plain(style: Style, text: Seq<char>) -> (Style, Seq<char>, Option<Seq<char>>) {
    (style, text, None)
}

/// The links to the first `n` photographs of some.
pub open spec fn links(refs: Seq<Reference>, n: int) -> Seq<(Style, Seq<char>, Option<Seq<char>>)>
    decreases n,
{
    if n <= 0 {
        Seq::empty()
    } else {
        links(refs, n - 1).push((Style::Link, "↗ "@ + refs[n - 1].label@, Some(refs[n - 1].url@)))
    }
}

/// What the panel says about the real counterpart of a prop. `picked` is the
/// instance and its name, when the prop was clicked rather than pointed at.
pub open spec fn match_lines(
    entry: Entry,
    picked: Option<(usize, Seq<char>)>,
) -> Seq<(Style, Seq<char>, Option<Seq<char>>)> {
    let tag = seq![plain(Style::Tag, entry.confidence.word())];
    let instance = match picked {
        Some((id, name)) => seq![
            plain(Style::Instance, "#"@ + decimal(id as nat) + " "@ + name),
        ],
        None => Seq::empty(),
    };
    let text = seq![
        plain(Style::What, entry.what@),
        plain(Style::Real, "→ "@ + entry.real@),
        plain(Style::Note, entry.note@),
    ];
    let pictures = if entry.refs@.len() == 0 {
        seq![plain(Style::Hint, "no photograph of a real counterpart — see the note"@)]
    } else {
        seq![plain(Style::Section, "PICTURES OF THE REAL UNIT"@)] + links(
            entry.refs@,
            entry.refs@.len() as int,
        )
    };
    tag + instance + text + pictures
}

/// What the card under the cursor says. `away` is how many metres off the prop
/// is, in words.
pub open spec fn card_text(entry: Entry, away: Seq<char>) -> Seq<(
    Style,
    Seq<char>,
    Option<Seq<char>>,
)> {
    let lines = seq![
        plain(Style::Tag, entry.confidence.word() + "   ·   "@ + away + " m away"@),
        plain(Style::What, entry.what@),
        plain(Style::Real, "→ "@ + entry.real@),
        plain(Style::Note, entry.note@),
    ];
    if entry.refs@.len() == 0 {
        lines
    } else {
        lines.push(
            plain(
                Style::Hint,
                "click — "@ + decimal(entry.refs@.len()) + (if entry.refs@.len() == 1 {
                    " photo"@
                } else {
                    " photos"@
                }) + " of the real unit, in the panel"@,
            ),
        )
    }
}

/// Lines as they read.
pub open spec fn reads(lines: Seq<Line>) -> Seq<(Style, Seq<char>, Option<Seq<char>>)> {
    Seq::new(lines.len(), |i: int| lines[i]@)
}

fn write(lines: &mut Vec<Line>, style: Style, text: String)
    ensures
        reads(final(lines)@) == reads(old(lines)@).push(plain(style, text@)),
{
    lines.push(Line { style, text, url: None });
    assert(reads(lines@) =~= reads(old(lines)@).push(plain(style, text@)));
}

/// What the panel says about the thing you are pointing at, with links to
/// photographs of the real unit so the claim can be checked rather than
/// believed. Without an entry there is only a hint.
#[must_use]
pub fn real_world_match(entry: Option<&Entry>, selection: &Selection) -> (r: Vec<Line>)
    ensures
        match entry {
            Some(entry) => reads(r@) == match_lines(
                *entry,
                if selection.entry is Some && selection.instance is Some {
                    Some((selection.instance->0, selection.name@))
                } else {
                    None
                },
            ),
            None => reads(r@) == seq![plain(Style::Prompt, "point at something to name it"@)],
        },
{
    let mut lines: Vec<Line> = Vec::new();
    assert(reads(lines@) =~= Seq::empty());
    match entry {
        None => {
            write(&mut lines, Style::Prompt, String::from_str("point at something to name it"));
            assert(reads(lines@) =~= seq![plain(Style::Prompt, "point at something to name it"@)]);
        },
        Some(entry) => {
            write(&mut lines, Style::Tag, String::from_str(entry.confidence.tag()));
            if let (Some(_), Some(id)) = (selection.entry, selection.instance) {
                let mut text: String = joined("#", decimal_of(id as u64).as_str());
                text.append(" ");
                text.append(selection.name.as_str());
                write(&mut lines, Style::Instance, text);
            }
            write(&mut lines, Style::What, String::from_str(entry.what));
            write(&mut lines, Style::Real, joined("→ ", entry.real));
            write(&mut lines, Style::Note, String::from_str(entry.note));
            if entry.refs.len() == 0 {
                write(
                    &mut lines,
                    Style::Hint,
                    String::from_str("no photograph of a real counterpart — see the note"),
                );
            } else {
                write(&mut lines, Style::Section, String::from_str("PICTURES OF THE REAL UNIT"));
                let ghost above = reads(lines@);
                let mut k: usize = 0;
                assert(above + links(entry.refs@, 0) =~= above);
                while k < entry.refs.len()
                    invariant
                        k <= entry.refs@.len(),
                        reads(lines@) == above + links(entry.refs@, k as int),
                    decreases entry.refs@.len() - k,
                {
                    let ghost before = lines@;
                    lines.push(
                        Line {
                            style: Style::Link,
                            text: joined("↗ ", entry.refs[k].label),
                            url: Some(entry.refs[k].url),
                        },
                    );
                    k += 1;
                    assert(reads(lines@) =~= reads(before).push(lines@.last()@));
                    assert(reads(lines@) =~= above + links(entry.refs@, k as int));
                }
            }
            assert(reads(lines@) =~= match_lines(
                *entry,
                if selection.entry is Some && selection.instance is Some {
                    Some((selection.instance->0, selection.name@))
                } else {
                    None
                },
            ));
        },
    }
    lines
}

/// What the card under the cursor says.
///
/// The links themselves are in the panel, where they can be clicked. Painting
/// them here would put text over the viewport that looks like a link and does
/// nothing, which is worse than a pointer to where the links are.
#[must_use]
pub fn card_lines(entry: &Entry, away: &str) -> (r: Vec<Line>)
    ensures
        reads(r@) == card_text(*entry, away@),
{
    let mut lines: Vec<Line> = Vec::new();
    assert(reads(lines@) =~= Seq::empty());
    let mut tag: String = joined(entry.confidence.tag(), "   ·   ");
    tag.append(away);
    tag.append(" m away");
    write(&mut lines, Style::Tag, tag);
    write(&mut lines, Style::What, String::from_str(entry.what));
    write(&mut lines, Style::Real, joined("→ ", entry.real));
    write(&mut lines, Style::Note, String::from_str(entry.note));
    if entry.refs.len() > 0 {
        let mut text: String = joined("click — ", decimal_of(entry.refs.len() as u64).as_str());
        if entry.refs.len() == 1 {
            text.append(" photo");
        } else {
            text.append(" photos");
        }
        text.append(" of the real unit, in the panel");
        write(&mut lines, Style::Hint, text);
    }
    assert(reads(lines@) =~= card_text(*entry, away@));
    lines
}

/// What a click does to a category: a preset or a bulk change does what its key
/// does, a mode button sets the mode of its own category, a swatch its colour,
/// and framing changes nothing.
pub proof fn law_what_clicks_do(click: Click, categories: Seq<Category>, k: int)
    requires
        0 <= k < categories.len(),
        categories.len() <= usize::MAX,
    ensures
        ({
            let before = categories[k];
            let after = clicked(click, categories, k);
            let process = before.id@ == "pipe"@ || before.id@ == "duct"@ || before.id@ == "vessel"@
                || before.id@ == "machinery"@ || before.id@ == "instrument"@;
            &&& after == (Category { mode: after.mode, colour: after.colour, ..before })
            &&& !(click is Colour) ==> after.colour == before.colour
            &&& click is ProcessPlant ==> after.mode == (if process {
                Mode::Solid
            } else {
                Mode::Ghosted
            })
            &&& click is PipesOnly ==> after.mode == (if before.id@ == "pipe"@ || before.id@
                == "instrument"@ {
                Mode::Solid
            } else {
                Mode::Hidden
            })
            &&& click is WholeMap ==> after.mode == Mode::Solid
            &&& click is GhostHidden ==> after.mode == (if before.mode == Mode::Hidden {
                Mode::Ghosted
            } else {
                before.mode
            })
            &&& click is HideGhosted ==> after.mode == (if before.mode == Mode::Ghosted {
                Mode::Hidden
            } else {
                before.mode
            })
            &&& click is FrameVisible ==> after == before
            &&& forall|index: usize, mode: Mode|
                click == Click::Mode(index, mode) ==> after.mode == if index == k {
                    mode
                } else {
                    before.mode
                }
            &&& forall|index: usize, colour: [Single; 3]|
                click == Click::Colour(index, colour) ==> after.mode == before.mode && after.colour
                    == if index == k {
                    colour
                } else {
                    before.colour
                }
        }),
{
}

/// A click calls for a rebuild unless it only frames, names no category, or
/// chooses the mode that the category has.
pub proof fn law_which_clicks_call_for_a_rebuild(click: Click, categories: Seq<Category>)
    ensures
        click is FrameVisible ==> !dirties(click, categories),
        click is ProcessPlant || click is PipesOnly || click is WholeMap || click is GhostHidden
            || click is HideGhosted ==> dirties(click, categories),
        forall|index: usize, mode: Mode|
            click == Click::Mode(index, mode) ==> (dirties(click, categories) <==> index < categories.len()
                && categories[index as int].mode != mode),
        forall|index: usize, colour: [Single; 3]|
            click == Click::Colour(index, colour) ==> (dirties(click, categories) <==> index
                < categories.len()),
{
}

/// A click that calls for no rebuild changes no category.
pub proof fn law_no_rebuild_no_change(click: Click, categories: Seq<Category>, k: int)
    requires
        0 <= k < categories.len(),
        !dirties(click, categories),
    ensures
        clicked(click, categories, k) == categories[k],
{
}

/// The first nine categories have the digits one to nine, the tenth has zero, and
/// the rest have none.
pub proof fn law_the_digits_of_the_categories(index: int)
    requires
        0 <= index,
    ensures
        index < 9 ==> digit_of(index) == Some(index + 1),
        index == 9 ==> digit_of(index) == Some(0int),
        index > 9 ==> digit_of(index) is None,
{
}

/// The panel shows what was clicked, else what the cursor is over, else what it
/// named last.
pub proof fn law_what_the_panel_shows(selection: &Selection, hovered: Option<usize>)
    ensures
        selection.entry is Some ==> selection.shown(hovered) == selection.entry,
        selection.entry is None && hovered is Some ==> selection.shown(hovered) == hovered,
        selection.entry is None && hovered is None ==> selection.shown(hovered) == selection.sticky,
{
}

/// An instance was identified as what the list has at its place, and as nothing
/// when it has no place there.
pub proof fn law_what_an_instance_was_identified_as(
    identified: Seq<Option<usize>>,
    instance: Option<usize>,
)
    ensures
        instance is Some && instance->0 < identified.len() ==> identified_as(identified, instance)
            == identified[instance->0 as int],
        instance is None || instance->0 >= identified.len() ==> identified_as(identified, instance) is None,
{
}

proof fn lemma_links(refs: Seq<Reference>, n: int)
    requires
        0 <= n <= refs.len(),
    ensures
        links(refs, n).len() == n,
        forall|j: int|
            0 <= j < n ==> (#[trigger] links(refs, n)[j]) == (
                Style::Link,
                "↗ "@ + refs[j].label@,
                Some(refs[j].url@),
            ),
    decreases n,
{
    if n > 0 {
        lemma_links(refs, n - 1);
    }
}

/// The panel says, line by line: how strong the match is; which instance was
/// picked, if one was; what it depicts; what that is in a real plant; why; and a
/// link for every photograph there is, under a heading, or that there is none.
pub proof fn law_what_the_panel_says(entry: Entry, picked: Option<(usize, Seq<char>)>)
    ensures
        ({
            let lines = match_lines(entry, picked);
            let at = if picked is Some {
                2int
            } else {
                1int
            };
            let n = entry.refs@.len() as int;
            &&& lines.len() == at + 4 + n
            &&& lines[0] == (
                Style::Tag,
                match entry.confidence {
                    Confidence::Identified => "IDENTIFIED"@,
                    Confidence::Proxy => "PROXY"@,
                    Confidence::Mismatch => "MISMATCH"@,
                },
                None::<Seq<char>>,
            )
            &&& picked matches Some((id, name)) ==> lines[1] == (
                Style::Instance,
                "#"@ + decimal(id as nat) + " "@ + name,
                None::<Seq<char>>,
            )
            &&& lines[at] == (Style::What, entry.what@, None::<Seq<char>>)
            &&& lines[at + 1] == (Style::Real, "→ "@ + entry.real@, None::<Seq<char>>)
            &&& lines[at + 2] == (Style::Note, entry.note@, None::<Seq<char>>)
            &&& n == 0 ==> lines[at + 3] == (
                Style::Hint,
                "no photograph of a real counterpart — see the note"@,
                None::<Seq<char>>,
            )
            &&& n > 0 ==> lines[at + 3] == (
                Style::Section,
                "PICTURES OF THE REAL UNIT"@,
                None::<Seq<char>>,
            )
            &&& forall|j: int|
                0 <= j < n ==> (#[trigger] lines[at + 4 + j]) == (
                    Style::Link,
                    "↗ "@ + entry.refs@[j].label@,
                    Some(entry.refs@[j].url@),
                )
        }),
{
    lemma_links(entry.refs@, entry.refs@.len() as int);
}

/// The card says how strong the match is and how far away it stands, what it
/// depicts, what that is in a real plant, why, and how many photographs there are
/// in the panel, if any.
pub proof fn law_what_the_card_says(entry: Entry, away: Seq<char>)
    ensures
        ({
            let lines = card_text(entry, away);
            let n = entry.refs@.len();
            &&& lines.len() == (if n == 0 {
                4int
            } else {
                5int
            })
            &&& lines[0] == (
                Style::Tag,
                match entry.confidence {
                    Confidence::Identified => "IDENTIFIED"@,
                    Confidence::Proxy => "PROXY"@,
                    Confidence::Mismatch => "MISMATCH"@,
                } + "   ·   "@ + away + " m away"@,
                None::<Seq<char>>,
            )
            &&& lines[1] == (Style::What, entry.what@, None::<Seq<char>>)
            &&& lines[2] == (Style::Real, "→ "@ + entry.real@, None::<Seq<char>>)
            &&& lines[3] == (Style::Note, entry.note@, None::<Seq<char>>)
            &&& n == 1 ==> lines[4] == (
                Style::Hint,
                "click — "@ + decimal(n) + " photo"@ + " of the real unit, in the panel"@,
                None::<Seq<char>>,
            )
            &&& n > 1 ==> lines[4] == (
                Style::Hint,
                "click — "@ + decimal(n) + " photos"@ + " of the real unit, in the panel"@,
                None::<Seq<char>>,
            )
        }),
{
}

/// Lines read as they are written: each has its style, its text and its link.
pub proof fn law_lines_read_as_they_are(lines: Seq<Line>, i: int)
    requires
        0 <= i < lines.len(),
    ensures
        reads(lines).len() == lines.len(),
        reads(lines)[i].0 == lines[i].style,
        reads(lines)[i].1 == lines[i].text@,
        lines[i].url is None ==> reads(lines)[i].2 is None,
        lines[i].url is Some ==> reads(lines)[i].2 == Some(lines[i].url->0@),
{
}

} // verus!
