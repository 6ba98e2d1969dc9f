//! Keys, buttons and what they mean.
//!
//! Kept in one place rather than in either entry point, so the desktop and the
//! browser cannot drift into having different controls, which would make the
//! on-screen legend wrong in one of them.
use crate::category::{lowered, pipes_mode, plant_mode, raised, Category, Classification, Mode};
use crate::single::Single;
use crate::text::joined;
use vstd::prelude::*;

verus! {

/// Bits of `5.0`: how much faster sprinting is.
pub const SPRINT: u32 = 0x40A0_0000;

/// Bits of `0.2`: how much slower creeping is.
pub const CREEP: u32 = 0x3E4C_CCCD;

/// Bits of `1.0`.
pub const WALK: u32 = 0x3F80_0000;

/// Bits of `1.25`: one step brighter.
pub const BRIGHTER: u32 = 0x3FA0_0000;

/// Bits of `0.8`: one step dimmer.
pub const DIMMER: u32 = 0x3F4C_CCCD;

/// Bits of `0.02`: as dim as the keys go.
pub const DIMMEST: u32 = 0x3CA3_D70A;

/// Bits of `4.0`: as bright as the keys go.
pub const BRIGHTEST: u32 = 0x4080_0000;

/// Bits of `0.2`: as slow as the camera flies, in metres a second.
pub const SLOWEST: u32 = 0x3E4C_CCCD;

/// Bits of `400.0`: as fast as the camera flies, in metres a second.
pub const FASTEST: u32 = 0x43C8_0000;

/// Ghost shading knobs, live-adjustable.
#[derive(Debug, Clone, Copy, PartialEq, Eq, Structural)]
pub struct GhostParams {
    /// Overall brightness of the shell.
    pub gain: Single,
    /// Fresnel exponent. Higher is a thinner, sharper rim.
    pub fresnel: Single,
    /// Metres at which the shell has fallen to 1/e.
    pub fade: Single,
}

impl Default for GhostParams {
    /// Tuned against the reactor building, which is the densest interior in the
    /// map and the case that has to stay readable: 0.6, 2.6 and 200 metres. The
    /// fade is longer than what reads well from inside, because a shorter one
    /// leaves the establishing shot with nothing around the plant at all.
    fn default() -> (r: Self)
        ensures
            r.gain.bits == 0x3F19_999A,
            r.fresnel.bits == 0x4026_6666,
            r.fade.bits == 0x4348_0000,
    {
        GhostParams {
            gain: Single { bits: 0x3F19_999A },
            fresnel: Single { bits: 0x4026_6666 },
            fade: Single { bits: 0x4348_0000 },
        }
    }
}

/// A key of the keyboard, as far as the viewer knows it.
#[derive(Debug, Clone, Copy, PartialEq, Eq, Structural)]
pub enum Key {
    /// One of the digits in the top row.
    Digit(u8),
    W,
    S,
    A,
    D,
    E,
    Q,
    Space,
    ShiftLeft,
    ShiftRight,
    ControlLeft,
    ControlRight,
    Escape,
    F,
    H,
    P,
    I,
    M,
    G,
    X,
    L,
    K,
    BracketLeft,
    BracketRight,
    F12,
    Other,
}

/// A button of the mouse.
#[derive(Debug, Clone, Copy, PartialEq, Eq, Structural)]
pub enum Button {
    Left,
    Right,
    Middle,
    Other,
}

/// Something that happens to the window.
#[derive(Debug, Clone, Copy, PartialEq, Eq, Structural)]
pub enum Event {
    CloseRequested,
    Focused(bool),
    Resized(u32, u32),
    CursorMoved,
    CursorLeft,
    MouseInput { button: Button, pressed: bool },
    MouseWheel,
    /// `key` is none for a key without a code.
    KeyboardInput { key: Option<Key>, pressed: bool, repeat: bool },
    ModifiersChanged,
    Touch,
    RedrawRequested,
    Other,
}

/// Where the viewer runs.
#[derive(Debug, Clone, Copy, PartialEq, Eq, Structural)]
pub enum Platform {
    Desktop,
    Browser,
}

/// Which movement keys are down this frame.
#[derive(Debug, Clone, Copy, PartialEq, Eq, Structural)]
pub struct Input {
    pub forward: bool,
    pub back: bool,
    pub left: bool,
    pub right: bool,
    pub up: bool,
    pub down: bool,
    pub fast: bool,
    pub slow: bool,
    pub looking: bool,
}

/// What two opposite keys come to.
pub open spec fn axis_of(towards: bool, away: bool) -> int {
    if towards && !away {
        1
    } else if away && !towards {
        -1
    } else {
        0
    }
}

fn axis(towards: bool, away: bool) -> (r: i8)
    ensures
        r == axis_of(towards, away),
{
    if towards && !away {
        1
    } else if away && !towards {
        -1
    } else {
        0
    }
}

impl Default for Input {
    /// Nothing is down.
    fn default() -> (r: Self)
        ensures
            r == Input::idle(),
    {
        Input {
            forward: false,
            back: false,
            left: false,
            right: false,
            up: false,
            down: false,
            fast: false,
            slow: false,
            looking: false,
        }
    }
}

impl Input {
    /// Nothing is down.
    pub open spec fn idle() -> Input {
        Input {
            forward: false,
            back: false,
            left: false,
            right: false,
            up: false,
            down: false,
            fast: false,
            slow: false,
            looking: false,
        }
    }

    /// What is down once a key goes down or up; none for a key that does not
    /// move the camera.
    pub open spec fn with(self, key: Key, down: bool) -> Option<Input> {
        match key {
            Key::W => Some(Input { forward: down, ..self }),
            Key::S => Some(Input { back: down, ..self }),
            Key::A => Some(Input { left: down, ..self }),
            Key::D => Some(Input { right: down, ..self }),
            Key::E => Some(Input { up: down, ..self }),
            Key::Space => Some(Input { up: down, ..self }),
            Key::Q => Some(Input { down: down, ..self }),
            Key::ShiftLeft => Some(Input { fast: down, ..self }),
            Key::ShiftRight => Some(Input { fast: down, ..self }),
            Key::ControlLeft => Some(Input { slow: down, ..self }),
            Key::ControlRight => Some(Input { slow: down, ..self }),
            _ => None,
        }
    }

    /// Take note of a key that goes down or up; whether it moves the camera.
    pub fn press(&mut self, key: Key, down: bool) -> (r: bool)
        ensures
            r <==> old(self).with(key, down) is Some,
            r ==> Some(*final(self)) == old(self).with(key, down),
            !r ==> *final(self) == *old(self),
    {
        match key {
            Key::W => self.forward = down,
            Key::S => self.back = down,
            Key::A => self.left = down,
            Key::D => self.right = down,
            Key::E | Key::Space => self.up = down,
            Key::Q => self.down = down,
            Key::ShiftLeft | Key::ShiftRight => self.fast = down,
            Key::ControlLeft | Key::ControlRight => self.slow = down,
            _ => return false,
        }
        true
    }

    /// Forward, right and up, each one of -1, 0 and 1.
    #[must_use]
    pub fn axes(&self) -> (r: (i8, i8, i8))
        ensures
            r.0 == axis_of(self.forward, self.back),
            r.1 == axis_of(self.right, self.left),
            r.2 == axis_of(self.up, self.down),
    {
        (
            axis(self.forward, self.back),
            axis(self.right, self.left),
            axis(self.up, self.down),
        )
    }

    /// Speed multiplier from the modifier keys.
    #[must_use]
    pub fn boost(&self) -> (r: Single)
        ensures
            r.bits == if self.fast {
                SPRINT
            } else if self.slow {
                CREEP
            } else {
                WALK
            },
            self.fast ==> r.bits == 0x40A0_0000,
            !self.fast && self.slow ==> r.bits == 0x3E4C_CCCD,
            !self.fast && !self.slow ==> r.bits == 0x3F80_0000,
    {
        if self.fast {
            Single { bits: SPRINT }
        } else if self.slow {
            Single { bits: CREEP }
        } else {
            Single { bits: WALK }
        }
    }
}

impl Event {
    /// A key or a button goes up.
    pub open spec fn releases(self) -> bool {
        match self {
            Event::KeyboardInput { pressed, .. } => !pressed,
            Event::MouseInput { pressed, .. } => !pressed,
            _ => false,
        }
    }

    /// Reaches the viewer whatever the panel says.
    pub open spec fn is_exempt(self, platform: Platform) -> bool {
        match self {
            Event::Resized(_, _) => true,
            Event::RedrawRequested => true,
            Event::Focused(_) => true,
            Event::CloseRequested => platform == Platform::Desktop,
            _ => false,
        }
    }

    /// Stops at the panel: the panel consumed it, and it may.
    pub open spec fn stops(self, platform: Platform, consumed: bool) -> bool {
        consumed && !self.releases() && !self.is_exempt(platform)
    }
}

/// Whether an event is a key or mouse-button *release*.
///
/// Releases must reach the camera even when the panel says it consumed the
/// event. The panel claims keyboard and pointer input whenever it has focus, and
/// if it swallows the release of a key that is currently held, nothing ever
/// clears that key: the camera flies in one direction forever, as though the key
/// were still down. A press can safely be eaten by the panel. A release cannot,
/// because it is the only thing that ends a state.
#[must_use]
pub fn is_release(event: &Event) -> (r: bool)
    ensures
        r == event.releases(),
{
    match *event {
        Event::KeyboardInput { pressed, .. } => !pressed,
        Event::MouseInput { pressed, .. } => !pressed,
        _ => false,
    }
}

/// Whether an event stops at the panel.
#[must_use]
pub fn stops_at_panel(platform: Platform, event: &Event, consumed: bool) -> (r: bool)
    ensures
        r == event.stops(platform, consumed),
{
    let exempt: bool = match *event {
        Event::Resized(_, _) | Event::RedrawRequested | Event::Focused(_) => true,
        Event::CloseRequested => platform == Platform::Desktop,
        _ => false,
    };
    consumed && !is_release(event) && !exempt
}

/// The platform-independent meaning of a key press.
#[derive(Debug, Clone, Copy, PartialEq, Eq, Structural)]
pub enum ViewKey {
    /// Cycle one category: solid, ghost, hidden.
    Category(usize),
    PresetPlant,
    PresetPipes,
    PresetEverything,
    GhostHidden,
    HideGhosted,
    Dimmer,
    Brighter,
    ToggleLabels,
    /// Show or hide the key legend in the corner of the viewport.
    ToggleKeys,
}

/// What a key means, for the keys that mean the same on every platform. The
/// digits stand for the first ten categories, with zero behind nine.
pub open spec fn meaning(key: Key) -> Option<ViewKey> {
    match key {
        Key::Digit(d) => if 1 <= d <= 9 {
            Some(ViewKey::Category((d - 1) as usize))
        } else if d == 0 {
            Some(ViewKey::Category(9))
        } else {
            None
        },
        Key::P => Some(ViewKey::PresetPlant),
        Key::I => Some(ViewKey::PresetPipes),
        Key::M => Some(ViewKey::PresetEverything),
        Key::G => Some(ViewKey::GhostHidden),
        Key::X => Some(ViewKey::HideGhosted),
        Key::BracketLeft => Some(ViewKey::Dimmer),
        Key::BracketRight => Some(ViewKey::Brighter),
        Key::L => Some(ViewKey::ToggleLabels),
        Key::K => Some(ViewKey::ToggleKeys),
        _ => None,
    }
}

/// Map a key to what it means to the viewer.
#[must_use]
pub fn view_key(key: Key) -> (r: Option<ViewKey>)
    ensures
        r == meaning(key),
{
    match key {
        Key::Digit(0) => Some(ViewKey::Category(9)),
        Key::Digit(d) => if d <= 9 {
            Some(ViewKey::Category(d as usize - 1))
        } else {
            None
        },
        Key::P => Some(ViewKey::PresetPlant),
        Key::I => Some(ViewKey::PresetPipes),
        Key::M => Some(ViewKey::PresetEverything),
        Key::G => Some(ViewKey::GhostHidden),
        Key::X => Some(ViewKey::HideGhosted),
        Key::BracketLeft => Some(ViewKey::Dimmer),
        Key::BracketRight => Some(ViewKey::Brighter),
        Key::L => Some(ViewKey::ToggleLabels),
        Key::K => Some(ViewKey::ToggleKeys),
        _ => None,
    }
}

/// No key that means something everywhere also moves the camera.
pub proof fn law_view_keys_do_not_move_the_camera(input: Input, key: Key, down: bool)
    requires
        meaning(key) is Some,
    ensures
        input.with(key, down) is None,
{
}

/// What a view key did, so the caller can report it and rebuild if needed.
pub struct KeyEffect {
    /// Description of the change, for the console or the title.
    pub announce: Option<String>,
    /// The set of drawn instances changed; draw lists need rebuilding.
    pub dirty: bool,
    /// `L` was pressed.
    pub toggle_labels: bool,
    /// `K` was pressed.
    pub toggle_keys: bool,
}

/// How much a key scales the brightness of the ghost shell by.
#[must_use]
pub fn brightness_step(key: ViewKey) -> (r: Option<Single>)
    ensures
        r == match key {
            ViewKey::Brighter => Some(Single { bits: BRIGHTER }),
            ViewKey::Dimmer => Some(Single { bits: DIMMER }),
            _ => None,
        },
        key == ViewKey::Brighter ==> r == Some(Single { bits: 0x3FA0_0000 }),
        key == ViewKey::Dimmer ==> r == Some(Single { bits: 0x3F4C_CCCD }),
        key != ViewKey::Brighter && key != ViewKey::Dimmer ==> r is None,
{
    match key {
        ViewKey::Brighter => Some(Single { bits: BRIGHTER }),
        ViewKey::Dimmer => Some(Single { bits: DIMMER }),
        _ => None,
    }
}

/// The brightness that a scaled brightness comes to.
#[must_use]
pub fn shell_gain(scaled: Single) -> (r: Single)
    ensures
        r == scaled.held(Single { bits: DIMMEST }, Single { bits: BRIGHTEST }),
        r == scaled.held(Single { bits: 0x3CA3_D70A }, Single { bits: 0x4080_0000 }),
{
    scaled.clamp(Single { bits: DIMMEST }, Single { bits: BRIGHTEST })
}

/// The speed that a scaled speed comes to.
#[must_use]
pub fn flying_speed(scaled: Single) -> (r: Single)
    ensures
        r == scaled.held(Single { bits: SLOWEST }, Single { bits: FASTEST }),
        r == scaled.held(Single { bits: 0x3E4C_CCCD }, Single { bits: 0x43C8_0000 }),
{
    scaled.clamp(Single { bits: SLOWEST }, Single { bits: FASTEST })
}

/// The mode that a key gives category `k` of some categories.
pub open spec fn mode_after(key: ViewKey, categories: Seq<Category>, k: int) -> Mode {
    let category = categories[k];
    match key {
        ViewKey::Category(index) => if index == k {
            category.mode.successor()
        } else {
            category.mode
        },
        ViewKey::PresetPlant => plant_mode(category.id@),
        ViewKey::PresetPipes => pipes_mode(category.id@),
        ViewKey::PresetEverything => Mode::Solid,
        ViewKey::GhostHidden => raised(category.mode),
        ViewKey::HideGhosted => lowered(category.mode),
        _ => category.mode,
    }
}

/// Whether a key acts on the categories.
pub open spec fn restyles(key: ViewKey, categories: Seq<Category>) -> bool {
    match key {
        ViewKey::Category(index) => index < categories.len(),
        ViewKey::PresetPlant => true,
        ViewKey::PresetPipes => true,
        ViewKey::PresetEverything => true,
        ViewKey::GhostHidden => true,
        ViewKey::HideGhosted => true,
        _ => false,
    }
}

/// Whether a key acts on the brightness of the ghost shell.
pub open spec fn rescales(key: ViewKey) -> bool {
    key == ViewKey::Brighter || key == ViewKey::Dimmer
}

/// What a key announces, given the categories as it leaves them, and how the
/// brightness that it leaves reads.
pub open spec fn announced(key: ViewKey, after: Seq<Category>, shown: Seq<char>) -> Seq<char> {
    match key {
        ViewKey::Category(index) => after[index as int].label@ + " "@ + seq![after[index as int].mode.letter()],
        ViewKey::PresetPlant => "preset: process plant solid, structure ghosted"@,
        ViewKey::PresetPipes => "preset: pipework and instrumentation only"@,
        ViewKey::PresetEverything => "preset: whole map"@,
        ViewKey::GhostHidden => "ghosted everything that was hidden"@,
        ViewKey::Brighter => "ghost brightness "@ + shown,
        ViewKey::Dimmer => "ghost brightness "@ + shown,
        _ => "hid everything that was ghosted"@,
    }
}

/// A key did what it does: `scaled` is the brightness scaled by its step, and
/// `shown` how the brightness that this comes to reads.
pub open spec fn acts(
    key: ViewKey,
    before: Classification,
    after: Classification,
    shading: GhostParams,
    shading_after: GhostParams,
    scaled: Single,
    shown: Seq<char>,
    effect: KeyEffect,
) -> bool {
    let gain = scaled.held(Single { bits: DIMMEST }, Single { bits: BRIGHTEST });
    &&& after.of_instance == before.of_instance
    &&& after.categories@.len() == before.categories@.len()
    &&& forall|k: int|
        0 <= k < before.categories@.len() ==> (#[trigger] after.categories@[k])
            == before.categories@[k].drawn_as(mode_after(key, before.categories@, k))
    &&& effect.dirty == restyles(key, before.categories@)
    &&& effect.announce is Some <==> restyles(key, before.categories@) || rescales(key)
    &&& effect.announce is Some ==> effect.announce->0@ == announced(key, after.categories@, shown)
    &&& rescales(key) ==> shading_after == GhostParams { gain, ..shading }
    &&& !rescales(key) ==> shading_after == shading
    &&& effect.toggle_labels == (key == ViewKey::ToggleLabels)
    &&& effect.toggle_keys == (key == ViewKey::ToggleKeys)
}

/// Apply the keys that mean the same thing on every platform: the category
/// digits, the three presets, the two bulk ghost operations and the brightness
/// pair.
///
/// `scaled` is the brightness scaled by the key's step, and `shown` how the
/// brightness that this comes to ([`shell_gain`]) reads, with two places; a key
/// without a step ignores both.
#[must_use]
pub fn apply_view_key(
    key: ViewKey,
    classification: &mut Classification,
    params: &mut GhostParams,
    scaled: Single,
    shown: &str,
) -> (r: KeyEffect)
    ensures
        acts(
            key,
            *old(classification),
            *final(classification),
            *old(params),
            *final(params),
            scaled,
            shown@,
            r,
        ),
{
    let mut effect: KeyEffect = KeyEffect {
        announce: None,
        dirty: false,
        toggle_labels: false,
        toggle_keys: false,
    };
    match key {
        ViewKey::Category(index) => {
            if index < classification.categories.len() {
                let mode: Mode = classification.categories[index].mode.next();
                classification.categories[index].mode = mode;
                let mut text: String = joined(classification.categories[index].label, " ");
                text.append(mode.tag());
                effect.announce = Some(text);
                effect.dirty = true;
            }
        },
        ViewKey::PresetPlant => {
            classification.preset_plant();
            effect.announce = Some(
                String::from_str("preset: process plant solid, structure ghosted"),
            );
            effect.dirty = true;
        },
        ViewKey::PresetPipes => {
            classification.preset_pipes_only();
            effect.announce = Some(String::from_str("preset: pipework and instrumentation only"));
            effect.dirty = true;
        },
        ViewKey::PresetEverything => {
            classification.preset_everything();
            effect.announce = Some(String::from_str("preset: whole map"));
            effect.dirty = true;
        },
        ViewKey::GhostHidden => {
            classification.ghost_hidden();
            effect.announce = Some(String::from_str("ghosted everything that was hidden"));
            effect.dirty = true;
        },
        ViewKey::HideGhosted => {
            classification.hide_ghosted();
            effect.announce = Some(String::from_str("hid everything that was ghosted"));
            effect.dirty = true;
        },
        ViewKey::Dimmer | ViewKey::Brighter => {
            params.gain = shell_gain(scaled);
            effect.announce = Some(joined("ghost brightness ", shown));
        },
        ViewKey::ToggleLabels => effect.toggle_labels = true,
        ViewKey::ToggleKeys => effect.toggle_keys = true,
    }
    effect
}

/// Pressing the key of a category three times changes nothing.
pub proof fn law_three_presses_change_nothing(
    index: usize,
    before: Seq<Category>,
    once: Seq<Category>,
    twice: Seq<Category>,
    thrice: Seq<Category>,
    k: int,
)
    requires
        0 <= k < before.len(),
        once.len() == before.len(),
        twice.len() == before.len(),
        thrice.len() == before.len(),
        once[k] == before[k].drawn_as(mode_after(ViewKey::Category(index), before, k)),
        twice[k] == once[k].drawn_as(mode_after(ViewKey::Category(index), once, k)),
        thrice[k] == twice[k].drawn_as(mode_after(ViewKey::Category(index), twice, k)),
    ensures
        thrice[k] == before[k],
{
}

/// Nothing that ends a state is lost to the panel: neither a release, nor the
/// window losing focus.
pub proof fn law_releases_are_never_swallowed(platform: Platform, event: Event, consumed: bool)
    requires
        event.releases() || event == Event::Focused(false),
    ensures
        !event.stops(platform, consumed),
{
}

/// Two opposite keys come to the difference between them: one for the first, one
/// less for the second, nothing for both or neither.
pub proof fn law_opposite_keys_cancel(towards: bool, away: bool)
    ensures
        axis_of(towards, away) == (if towards {
            1int
        } else {
            0int
        }) - (if away {
            1int
        } else {
            0int
        }),
        axis_of(towards, away) == -axis_of(away, towards),
{
}

/// Each movement key sets or clears its own direction and nothing else, and no
/// other key moves the camera.
pub proof fn law_movement_keys(input: Input, key: Key, down: bool)
    ensures
        key == Key::W ==> input.with(key, down) == Some(Input { forward: down, ..input }),
        key == Key::S ==> input.with(key, down) == Some(Input { back: down, ..input }),
        key == Key::A ==> input.with(key, down) == Some(Input { left: down, ..input }),
        key == Key::D ==> input.with(key, down) == Some(Input { right: down, ..input }),
        key == Key::E || key == Key::Space ==> input.with(key, down) == Some(Input { up: down, ..input }),
        key == Key::Q ==> input.with(key, down) == Some(Input { down, ..input }),
        key == Key::ShiftLeft || key == Key::ShiftRight ==> input.with(key, down) == Some(
            Input { fast: down, ..input },
        ),
        key == Key::ControlLeft || key == Key::ControlRight ==> input.with(key, down) == Some(
            Input { slow: down, ..input },
        ),
        input.with(key, down) is Some ==> key == Key::W || key == Key::S || key == Key::A || key == Key::D
            || key == Key::E || key == Key::Space || key == Key::Q || key == Key::ShiftLeft || key
            == Key::ShiftRight || key == Key::ControlLeft || key == Key::ControlRight,
{
}

/// Nothing is down in an idle input.
pub proof fn law_idle()
    ensures
        ({
            let input = Input::idle();
            &&& !input.forward && !input.back && !input.left && !input.right
            &&& !input.up && !input.down && !input.fast && !input.slow && !input.looking
        }),
{
}

/// What the panel consumed stops there, but for releases, resizing, redrawing,
/// focus, and on the desktop the request to close.
pub proof fn law_what_stops_at_the_panel(platform: Platform, event: Event, consumed: bool)
    ensures
        event.stops(platform, consumed) <==> {
            &&& consumed
            &&& !(event matches Event::KeyboardInput { pressed, .. } && !pressed)
            &&& !(event matches Event::MouseInput { pressed, .. } && !pressed)
            &&& !(event is Resized)
            &&& !(event is RedrawRequested)
            &&& !(event is Focused)
            &&& !(event is CloseRequested && platform == Platform::Desktop)
        },
        event.releases() <==> (event matches Event::KeyboardInput { pressed, .. } && !pressed) || (
        event matches Event::MouseInput { pressed, .. } && !pressed),
{
}

/// Digit by digit, the keys cycle the first ten categories, with zero behind
/// nine; the letters and brackets mean what the legend says, and no other key
/// means anything.
pub proof fn law_what_keys_mean(key: Key)
    ensures
        forall|d: u8|
            key == Key::Digit(d) && 1 <= d <= 9 ==> meaning(key) == Some(
                ViewKey::Category((d - 1) as usize),
            ),
        key == Key::Digit(0) ==> meaning(key) == Some(ViewKey::Category(9)),
        forall|d: u8| key == Key::Digit(d) && d > 9 ==> meaning(key) is None,
        meaning(key) == Some(ViewKey::PresetPlant) <==> key == Key::P,
        meaning(key) == Some(ViewKey::PresetPipes) <==> key == Key::I,
        meaning(key) == Some(ViewKey::PresetEverything) <==> key == Key::M,
        meaning(key) == Some(ViewKey::GhostHidden) <==> key == Key::G,
        meaning(key) == Some(ViewKey::HideGhosted) <==> key == Key::X,
        meaning(key) == Some(ViewKey::Dimmer) <==> key == Key::BracketLeft,
        meaning(key) == Some(ViewKey::Brighter) <==> key == Key::BracketRight,
        meaning(key) == Some(ViewKey::ToggleLabels) <==> key == Key::L,
        meaning(key) == Some(ViewKey::ToggleKeys) <==> key == Key::K,
        (meaning(key) matches Some(ViewKey::Category(_)) ==> key is Digit),
{
}

/// What a view key does to a category: its mode goes where the key says, and
/// nothing else of it changes.
pub proof fn law_what_view_keys_do_to_a_category(
    key: ViewKey,
    before: Classification,
    after: Classification,
    shading: GhostParams,
    shading_after: GhostParams,
    scaled: Single,
    shown: Seq<char>,
    effect: KeyEffect,
    k: int,
)
    requires
        acts(key, before, after, shading, shading_after, scaled, shown, effect),
        0 <= k < before.categories@.len(),
    ensures
        after.of_instance == before.of_instance,
        after.categories@.len() == before.categories@.len(),
        ({
            let old_one = before.categories@[k];
            let new_one = after.categories@[k];
            let process = old_one.id@ == "pipe"@ || old_one.id@ == "duct"@ || old_one.id@ == "vessel"@
                || old_one.id@ == "machinery"@ || old_one.id@ == "instrument"@;
            &&& new_one == (Category { mode: new_one.mode, ..old_one })
            &&& key == ViewKey::Category(k as usize) && k <= usize::MAX ==> {
                &&& old_one.mode == Mode::Solid ==> new_one.mode == Mode::Ghosted
                &&& old_one.mode == Mode::Ghosted ==> new_one.mode == Mode::Hidden
                &&& old_one.mode == Mode::Hidden ==> new_one.mode == Mode::Solid
            }
            &&& (key matches ViewKey::Category(index) && index != k) ==> new_one == old_one
            &&& key == ViewKey::PresetPlant ==> new_one.mode == (if process {
                Mode::Solid
            } else {
                Mode::Ghosted
            })
            &&& key == ViewKey::PresetPipes ==> new_one.mode == (if old_one.id@ == "pipe"@ || old_one.id@
                == "instrument"@ {
                Mode::Solid
            } else {
                Mode::Hidden
            })
            &&& key == ViewKey::PresetEverything ==> new_one.mode == Mode::Solid
            &&& key == ViewKey::GhostHidden ==> new_one.mode == (if old_one.mode == Mode::Hidden {
                Mode::Ghosted
            } else {
                old_one.mode
            })
            &&& key == ViewKey::HideGhosted ==> new_one.mode == (if old_one.mode == Mode::Ghosted {
                Mode::Hidden
            } else {
                old_one.mode
            })
            &&& key == ViewKey::Dimmer || key == ViewKey::Brighter || key == ViewKey::ToggleLabels || key
                == ViewKey::ToggleKeys ==> new_one == old_one
        }),
{
    assert(after.categories@[k] == before.categories@[k].drawn_as(mode_after(key, before.categories@, k)));
}

/// What a view key reports: a change of the categories calls for a rebuild and is
/// announced, a change of brightness is announced with how it reads, and the two
/// toggles are passed on.
pub proof fn law_what_view_keys_report(
    key: ViewKey,
    before: Classification,
    after: Classification,
    shading: GhostParams,
    shading_after: GhostParams,
    scaled: Single,
    shown: Seq<char>,
    effect: KeyEffect,
)
    requires
        acts(key, before, after, shading, shading_after, scaled, shown, effect),
    ensures
        key == ViewKey::Dimmer || key == ViewKey::Brighter ==> {
            &&& !effect.dirty
            &&& effect.announce is Some
            &&& effect.announce->0@ == "ghost brightness "@ + shown
            &&& shading_after.fresnel == shading.fresnel
            &&& shading_after.fade == shading.fade
            &&& shading_after.gain == scaled.held(
                Single { bits: 0x3CA3_D70A },
                Single { bits: 0x4080_0000 },
            )
        },
        key != ViewKey::Dimmer && key != ViewKey::Brighter ==> shading_after == shading,
        effect.toggle_labels <==> key == ViewKey::ToggleLabels,
        effect.toggle_keys <==> key == ViewKey::ToggleKeys,
        key == ViewKey::ToggleLabels || key == ViewKey::ToggleKeys ==> !effect.dirty && effect.announce is None,
        forall|index: usize|
            key == ViewKey::Category(index) ==> if index < before.categories@.len() {
                &&& effect.dirty
                &&& effect.announce is Some
                &&& effect.announce->0@ == after.categories@[index as int].label@ + " "@ + seq![
                    match after.categories@[index as int].mode {
                        Mode::Solid => 'S',
                        Mode::Ghosted => 'G',
                        Mode::Hidden => 'H',
                    },
                ]
            } else {
                !effect.dirty && effect.announce is None
            },
        key == ViewKey::PresetPlant ==> effect.dirty && effect.announce is Some && effect.announce->0@
            == "preset: process plant solid, structure ghosted"@,
        key == ViewKey::PresetPipes ==> effect.dirty && effect.announce is Some && effect.announce->0@
            == "preset: pipework and instrumentation only"@,
        key == ViewKey::PresetEverything ==> effect.dirty && effect.announce is Some
            && effect.announce->0@ == "preset: whole map"@,
        key == ViewKey::GhostHidden ==> effect.dirty && effect.announce is Some && effect.announce->0@
            == "ghosted everything that was hidden"@,
        key == ViewKey::HideGhosted ==> effect.dirty && effect.announce is Some && effect.announce->0@
            == "hid everything that was ghosted"@,
{
}

} // verus!
