//! One run of the viewer: what is pressed, shown, pointed at and picked, and
//! what each event does to that.
//!
//! Nothing here touches a window, a device or a clock. An event comes in, the
//! session changes, and what is left to be done is handed back as a [`Step`] for
//! whoever owns the window to carry out.
use crate::category::Classification;
use crate::controls::{
    acts, apply_view_key, axis_of, meaning, stops_at_panel, view_key, Button, Event, GhostParams, Input, Key,
    KeyEffect, Platform, ViewKey, WALK,
};
use crate::panel::{identified_as, Response};
use crate::single::Single;
use crate::touch::Flight;
use vstd::prelude::*;

verus! {

/// Bits of `0.1`: the longest step the camera takes in one frame, in seconds.
pub const LONGEST_STEP: u32 = 0x3DCC_CCCD;

/// Bits of `0.5`: how often the frame rate is worked out anew, in seconds.
pub const RATE_WINDOW: u32 = 0x3F00_0000;

/// Bits of `0.0`.
pub const STILL: u32 = 0x0000_0000;

/// Bits of `-1.0`.
pub const BACKWARDS: u32 = 0xBF80_0000;

/// The frame of a self-test on which the cursor is parked, so that the capture
/// shows the hover card and not just the pinned labels.
pub const PARK_FRAME: u32 = 25;

/// The frame of a self-test that is captured.
pub const CAPTURE_FRAME: u32 = 30;

/// The last frame of a self-test before it quits.
pub const LAST_FRAME: u32 = 31;

/// What is left to be done about an event.
#[derive(Debug, Clone, Copy, PartialEq, Eq, Structural)]
pub enum Step {
    /// Nothing.
    Nothing,
    /// Leave.
    Quit,
    /// The window lost its focus: show the cursor, and forget about fingers.
    Unfocused,
    /// Show the cursor, or hide it.
    ShowCursor(bool),
    /// Give the target this size.
    Resize(u32, u32),
    /// Find out what the cursor is over.
    Hover,
    /// Pick what the cursor is over.
    Select,
    /// Change the speed by the wheel.
    Scroll,
    /// Frame what is visible.
    Frame,
    /// Write the next frame to a file.
    Capture,
    /// The panel was shown, or hidden.
    PanelShown(bool),
    /// Apply a view key.
    View(ViewKey),
    /// Follow a finger.
    Touch,
    /// Draw a frame.
    Draw,
}

/// What a self-test does after a frame.
#[derive(Debug, Clone, Copy, PartialEq, Eq, Structural)]
pub enum SelfTest {
    Wait,
    ParkCursor,
    Capture,
    Quit,
}

/// The state of a run.
#[derive(Debug, Clone, Copy, PartialEq, Eq)]
pub struct Session {
    pub platform: Platform,
    pub input: Input,
    /// Last picked instance, drawn in white so you can see what you hit, and
    /// held in the panel so its reference links stay clickable while the cursor
    /// moves off it.
    pub selected: Option<usize>,
    /// Instance under the cursor, refreshed whenever the mouse moves.
    pub hovered: Option<usize>,
    /// The last entry that the cursor named, so its reference links stay
    /// reachable after the pointer moves off the geometry towards them.
    pub sticky: Option<usize>,
    /// Whether pinned names are drawn over each identified asset.
    pub show_labels: bool,
    /// Whether the key legend is painted in the corner of the viewport.
    pub show_keys: bool,
    /// Whether the panel is shown; none until there is a panel.
    pub panel: Option<bool>,
    /// Surface size in physical pixels, for turning the cursor into a ray.
    pub viewport: (u32, u32),
    /// Set whenever a category changes, so the draw lists rebuild next frame.
    pub dirty: bool,
    /// Frames drawn since the frame rate was last worked out.
    pub frames: u32,
    /// Frames drawn since the window opened.
    pub drawn: u32,
}

/// At least one.
pub open spec fn at_least_one(x: u32) -> u32 {
    if x == 0 {
        1
    } else {
        x
    }
}

fn one_or_more(x: u32) -> (r: u32)
    ensures
        r == at_least_one(x),
{
    if x == 0 {
        1
    } else {
        x
    }
}

impl Session {
    /// What a key that went down, and was not held, is left to do.
    pub open spec fn key_step(self, key: Key) -> Step {
        match meaning(key) {
            Some(view) => Step::View(view),
            None => match key {
                Key::F => Step::Frame,
                Key::F12 => if self.platform == Platform::Desktop {
                    Step::Capture
                } else {
                    Step::Nothing
                },
                _ => Step::Nothing,
            },
        }
    }

    /// What is left to be done about an event that reached the viewer.
    pub open spec fn step(self, event: Event) -> Step {
        match event {
            Event::CloseRequested => Step::Quit,
            Event::Focused(false) => Step::Unfocused,
            Event::Resized(width, height) => match self.platform {
                Platform::Desktop => Step::Resize(width, height),
                Platform::Browser => Step::Resize(at_least_one(width), at_least_one(height)),
            },
            Event::CursorMoved => Step::Hover,
            Event::MouseInput { button: Button::Right, pressed } => match self.platform {
                Platform::Desktop => Step::ShowCursor(!pressed),
                Platform::Browser => Step::Nothing,
            },
            Event::MouseInput { button: Button::Left, pressed: true } => Step::Select,
            Event::MouseWheel => Step::Scroll,
            Event::KeyboardInput { key: Some(key), pressed, repeat } => if self.input.with(
                key,
                pressed,
            ) is Some {
                Step::Nothing
            } else if key == Key::Escape && pressed && self.platform == Platform::Desktop {
                Step::Quit
            } else if !pressed || repeat {
                Step::Nothing
            } else if key == Key::H {
                match self.panel {
                    Some(shown) => Step::PanelShown(!shown),
                    None => Step::Nothing,
                }
            } else {
                self.key_step(key)
            },
            Event::Touch => match self.platform {
                Platform::Desktop => Step::Nothing,
                Platform::Browser => Step::Touch,
            },
            Event::RedrawRequested => Step::Draw,
            _ => Step::Nothing,
        }
    }

    /// What an event that reached the viewer makes of the session.
    pub open spec fn after(self, event: Event) -> Session {
        match event {
            Event::Focused(false) => Session { input: Input::idle(), ..self },
            Event::Resized(width, height) => Session {
                viewport: match self.platform {
                    Platform::Desktop => (width, height),
                    Platform::Browser => (at_least_one(width), at_least_one(height)),
                },
                ..self
            },
            Event::MouseInput { button: Button::Right, pressed } => Session {
                input: Input { looking: pressed, ..self.input },
                ..self
            },
            Event::KeyboardInput { key: Some(key), pressed, repeat } => match self.input.with(
                key,
                pressed,
            ) {
                Some(input) => Session { input, ..self },
                None => if key == Key::H && pressed && !repeat && self.panel is Some {
                    Session { panel: Some(!self.panel->0), ..self }
                } else {
                    self
                },
            },
            _ => self,
        }
    }

    /// A run that has just started. On a device whose only input is a
    /// touchscreen the viewer is a viewer and nothing else: no key legend and no
    /// pinned names.
    #[must_use]
    pub fn new(platform: Platform, viewport: (u32, u32), touch_only: bool) -> (r: Self)
        ensures
            r == (Session {
                platform,
                input: Input::idle(),
                selected: None,
                hovered: None,
                sticky: None,
                show_labels: !touch_only,
                show_keys: !touch_only,
                panel: None,
                viewport,
                dirty: true,
                frames: 0,
                drawn: 0,
            }),
    {
        Session {
            platform,
            input: Input::default(),
            selected: None,
            hovered: None,
            sticky: None,
            show_labels: !touch_only,
            show_keys: !touch_only,
            panel: None,
            viewport,
            dirty: true,
            frames: 0,
            drawn: 0,
        }
    }

    /// Whether the key legend is painted: it goes away with the panel, and by a
    /// key of its own.
    pub open spec fn shows_legend(self) -> bool {
        self.show_keys && self.panel == Some(true)
    }

    /// Whether the key legend is painted in the corner of the viewport.
    #[must_use]
    pub fn legend_shown(&self) -> (r: bool)
        ensures
            r == (self.show_keys && self.panel == Some(true)),
            r == self.shows_legend(),
    {
        match self.panel {
            Some(shown) => self.show_keys && shown,
            None => false,
        }
    }

    /// The panel takes an event that it claims only while it is shown: hidden,
    /// nothing in it is interactive.
    pub open spec fn takes(self, claimed: bool) -> bool {
        claimed && self.panel == Some(true)
    }

    /// Something happened to the window. `claimed` says that the panel claims
    /// it: a click on a button must not also pick something behind the panel.
    #[must_use]
    pub fn on_event(&mut self, event: Event, claimed: bool) -> (r: Step)
        ensures
            event.stops(old(self).platform, old(self).takes(claimed)) ==> r == Step::Nothing
                && *final(self) == *old(self),
            !event.stops(old(self).platform, old(self).takes(claimed)) ==> r == old(self).step(event)
                && *final(self) == old(self).after(event),
    {
        let consumed: bool = match self.panel {
            Some(shown) => claimed && shown,
            None => false,
        };
        if stops_at_panel(self.platform, &event, consumed) {
            return Step::Nothing;
        }
        match event {
            Event::CloseRequested => Step::Quit,
            Event::Focused(focused) => {
                if focused {
                    Step::Nothing
                } else {
                    self.input = Input::default();
                    Step::Unfocused
                }
            },
            Event::Resized(width, height) => {
                self.viewport = match self.platform {
                    Platform::Desktop => (width, height),
                    Platform::Browser => (one_or_more(width), one_or_more(height)),
                };
                Step::Resize(self.viewport.0, self.viewport.1)
            },
            Event::CursorMoved => Step::Hover,
            Event::MouseInput { button, pressed } => match button {
                Button::Right => {
                    self.input.looking = pressed;
                    match self.platform {
                        Platform::Desktop => Step::ShowCursor(!pressed),
                        Platform::Browser => Step::Nothing,
                    }
                },
                Button::Left => if pressed {
                    Step::Select
                } else {
                    Step::Nothing
                },
                _ => Step::Nothing,
            },
            Event::MouseWheel => Step::Scroll,
            Event::KeyboardInput { key, pressed, repeat } => match key {
                Some(key) => self.on_key(key, pressed, repeat),
                None => Step::Nothing,
            },
            Event::Touch => match self.platform {
                Platform::Desktop => Step::Nothing,
                Platform::Browser => Step::Touch,
            },
            Event::RedrawRequested => Step::Draw,
            _ => Step::Nothing,
        }
    }

    fn on_key(&mut self, key: Key, pressed: bool, repeat: bool) -> (r: Step)
        ensures
            r == old(self).step(Event::KeyboardInput { key: Some(key), pressed, repeat }),
            *final(self) == old(self).after(Event::KeyboardInput { key: Some(key), pressed, repeat }),
    {
        let mut input: Input = self.input;
        if input.press(key, pressed) {
            self.input = input;
            return Step::Nothing;
        }
        if key == Key::Escape && pressed && self.platform == Platform::Desktop {
            return Step::Quit;
        }
        if !pressed || repeat {
            return Step::Nothing;
        }
        if key == Key::H {
            return match self.panel {
                Some(shown) => {
                    self.panel = Some(!shown);
                    Step::PanelShown(!shown)
                },
                None => Step::Nothing,
            };
        }
        match view_key(key) {
            Some(view) => Step::View(view),
            None => match key {
                Key::F => Step::Frame,
                Key::F12 => if self.platform == Platform::Desktop {
                    Step::Capture
                } else {
                    Step::Nothing
                },
                _ => Step::Nothing,
            },
        }
    }

    /// Apply a view key, to the categories and to the session.
    #[must_use]
    pub fn on_view_key(
        &mut self,
        key: ViewKey,
        classification: &mut Classification,
        params: &mut GhostParams,
        scaled: Single,
        shown: &str,
    ) -> (r: KeyEffect)
        ensures
            acts(
                key,
                *old(classification),
                *final(classification),
                *old(params),
                *final(params),
                scaled,
                shown@,
                r,
            ),
            *final(self) == (Session {
                dirty: old(self).dirty || r.dirty,
                show_labels: old(self).show_labels != r.toggle_labels,
                show_keys: old(self).show_keys != r.toggle_keys,
                ..*old(self)
            }),
    {
        let effect: KeyEffect = apply_view_key(key, classification, params, scaled, shown);
        if effect.dirty {
            self.dirty = true;
        }
        if effect.toggle_labels {
            self.show_labels = !self.show_labels;
        }
        if effect.toggle_keys {
            self.show_keys = !self.show_keys;
        }
        effect
    }

    /// The cursor moved over `hit`. While the mouse turns the camera the pointer
    /// is hidden and moves constantly; a tooltip chasing it would be noise.
    pub fn on_hover(&mut self, hit: Option<usize>, identified: &Vec<Option<usize>>)
        ensures
            old(self).input.looking ==> *final(self) == (Session { hovered: None, ..*old(self) }),
            !old(self).input.looking ==> *final(self) == (Session {
                hovered: hit,
                sticky: match identified_as(identified@, hit) {
                    Some(entry) => Some(entry),
                    None => old(self).sticky,
                },
                ..*old(self)
            }),
            !old(self).input.looking ==> {
                let named = hit is Some && hit->0 < identified@.len() && identified@[hit->0 as int] is Some;
                &&& final(self).hovered == hit
                &&& named ==> final(self).sticky == identified@[hit->0 as int]
                &&& !named ==> final(self).sticky == old(self).sticky
            },
    {
        if self.input.looking {
            self.hovered = None;
            return;
        }
        self.hovered = hit;
        if let Some(id) = hit {
            if id < identified.len() {
                if let Some(entry) = identified[id] {
                    self.sticky = Some(entry);
                }
            }
        }
    }

    /// The user clicked on `hit`. Without a ray through the cursor, which takes
    /// a surface that has a size, a click on the desktop does nothing.
    pub fn on_select(&mut self, aimed: bool, hit: Option<usize>)
        ensures
            *final(self) == if old(self).platform == Platform::Desktop && !aimed {
                *old(self)
            } else {
                Session { selected: hit, dirty: true, ..*old(self) }
            },
    {
        if self.platform == Platform::Desktop && !aimed {
            return;
        }
        self.selected = hit;
        self.dirty = true;
    }

    /// The canvas has this size, in physical pixels; the size to give the
    /// target. A canvas that has not been laid out yet counts as one pixel.
    pub fn on_canvas(&mut self, width: u32, height: u32) -> (r: (u32, u32))
        ensures
            r == (at_least_one(width), at_least_one(height)),
            *final(self) == (Session { viewport: r, ..*old(self) }),
            width > 0 ==> r.0 == width,
            width == 0 ==> r.0 == 1,
            height > 0 ==> r.1 == height,
            height == 0 ==> r.1 == 1,
    {
        self.viewport = (one_or_more(width), one_or_more(height));
        self.viewport
    }

    /// There is a panel now.
    pub fn on_panel(&mut self, shown: bool)
        ensures
            *final(self) == (Session { panel: Some(shown), ..*old(self) }),
    {
        self.panel = Some(shown);
    }

    /// The draw lists are about to be rebuilt, if they have to be.
    #[must_use]
    pub fn take_dirty(&mut self) -> (r: bool)
        ensures
            r == old(self).dirty,
            *final(self) == (Session { dirty: false, ..*old(self) }),
    {
        let dirty: bool = self.dirty;
        self.dirty = false;
        dirty
    }

    /// The panel was drawn; whether the camera is to be framed on what is
    /// visible.
    #[must_use]
    pub fn on_response(&mut self, response: &Response) -> (r: bool)
        ensures
            r == response.frame_visible,
            *final(self) == (Session { dirty: old(self).dirty || response.dirty, ..*old(self) }),
    {
        if response.dirty {
            self.dirty = true;
        }
        response.frame_visible
    }

    /// A frame was drawn, this long after the frame rate was last worked out;
    /// how many frames there were if it is time to work it out again.
    #[must_use]
    pub fn on_drawn(&mut self, elapsed: Single) -> (r: Option<u32>)
        requires
            old(self).frames < u32::MAX,
            old(self).drawn < u32::MAX,
        ensures
            ({
                let frames = (old(self).frames + 1) as u32;
                let drawn = (old(self).drawn + 1) as u32;
                if (Single { bits: RATE_WINDOW }).at_most(elapsed) {
                    r == Some(frames) && *final(self) == (Session { frames: 0, drawn, ..*old(self) })
                } else {
                    r is None && *final(self) == (Session { frames, drawn, ..*old(self) })
                }
            }),
            r is Some <==> (Single { bits: 0x3F00_0000 }).at_most(elapsed),
            r is Some ==> r->0 == old(self).frames + 1 && final(self).frames == 0,
            r is None ==> final(self).frames == old(self).frames + 1,
            final(self).drawn == old(self).drawn + 1,
    {
        self.drawn = self.drawn + 1;
        self.frames = self.frames + 1;
        if (Single { bits: RATE_WINDOW }).le(elapsed) {
            let frames: u32 = self.frames;
            self.frames = 0;
            Some(frames)
        } else {
            None
        }
    }

    /// What a self-test does now: let the window settle, grab one real frame and
    /// quit.
    #[must_use]
    pub fn self_test(&self) -> (r: SelfTest)
        ensures
            r == if self.drawn == PARK_FRAME {
                SelfTest::ParkCursor
            } else if self.drawn == CAPTURE_FRAME {
                SelfTest::Capture
            } else if self.drawn > LAST_FRAME {
                SelfTest::Quit
            } else {
                SelfTest::Wait
            },
            r == SelfTest::ParkCursor <==> self.drawn == 25,
            r == SelfTest::Capture <==> self.drawn == 30,
            r == SelfTest::Quit <==> self.drawn >= 32,
    {
        if self.drawn == PARK_FRAME {
            SelfTest::ParkCursor
        } else if self.drawn == CAPTURE_FRAME {
            SelfTest::Capture
        } else if self.drawn > LAST_FRAME {
            SelfTest::Quit
        } else {
            SelfTest::Wait
        }
    }

    /// Where the camera goes this frame: forward, right and up, and how much
    /// faster than usual. Two fingers win over the keys while they are down, so
    /// that a stuck key cannot fight them.
    #[must_use]
    pub fn steering(&self, fingers: Option<Flight>) -> (r: (Single, Single, Single, Single))
        ensures
            match fingers {
                Some(flight) => r == (
                    flight.forward,
                    flight.right,
                    Single { bits: STILL },
                    flight.throttle,
                ),
                None => {
                    &&& r.0 == as_single(axis_of(self.input.forward, self.input.back))
                    &&& r.1 == as_single(axis_of(self.input.right, self.input.left))
                    &&& r.2 == as_single(axis_of(self.input.up, self.input.down))
                    &&& r.3.bits == if self.input.fast {
                        crate::controls::SPRINT
                    } else if self.input.slow {
                        crate::controls::CREEP
                    } else {
                        WALK
                    }
                },
            },
            fingers is Some ==> {
                &&& r.0 == fingers->0.forward
                &&& r.1 == fingers->0.right
                &&& r.2.bits == 0
                &&& r.3 == fingers->0.throttle
            },
            fingers is None ==> {
                &&& r.0.bits == if self.input.forward == self.input.back {
                    0u32
                } else if self.input.forward {
                    0x3F80_0000u32
                } else {
                    0xBF80_0000u32
                }
                &&& r.1.bits == if self.input.right == self.input.left {
                    0u32
                } else if self.input.right {
                    0x3F80_0000u32
                } else {
                    0xBF80_0000u32
                }
                &&& r.2.bits == if self.input.up == self.input.down {
                    0u32
                } else if self.input.up {
                    0x3F80_0000u32
                } else {
                    0xBF80_0000u32
                }
            },
    {
        match fingers {
            Some(flight) => (
                flight.forward,
                flight.right,
                Single { bits: STILL },
                flight.throttle,
            ),
            None => {
                let (forward, right, up): (i8, i8, i8) = self.input.axes();
                (single_of(forward), single_of(right), single_of(up), self.input.boost())
            },
        }
    }
}

/// One of -1, 0 and 1 as a number.
pub open spec fn as_single(axis: int) -> Single {
    if axis > 0 {
        Single { bits: WALK }
    } else if axis < 0 {
        Single { bits: BACKWARDS }
    } else {
        Single { bits: STILL }
    }
}

fn single_of(axis: i8) -> (r: Single)
    ensures
        r == as_single(axis as int),
{
    if axis > 0 {
        Single { bits: WALK }
    } else if axis < 0 {
        Single { bits: BACKWARDS }
    } else {
        Single { bits: STILL }
    }
}

/// How long a step the camera takes this frame, so long after the last.
#[must_use]
pub fn frame_step(elapsed: Single) -> (r: Single)
    ensures
        r == elapsed.lesser(Single { bits: LONGEST_STEP }),
        r == elapsed.lesser(Single { bits: 0x3DCC_CCCD }),
{
    elapsed.min(Single { bits: LONGEST_STEP })
}

/// The colours that the picked instance gets in place of its category's: white,
/// because you have to be able to see what you just clicked.
#[must_use]
pub fn highlight(selected: Option<usize>, instances: usize) -> (r: Vec<Option<[Single; 3]>>)
    ensures
        r@.len() == instances,
        forall|id: int| 0 <= id < instances ==> if selected == Some(id as usize) {
            (#[trigger] r@[id]) is Some && forall|c: int| 0 <= c < 3 ==> (#[trigger] r@[id]->0[c]).bits == WALK
        } else {
            r@[id] is None
        },
{
    let mut colours: Vec<Option<[Single; 3]>> = Vec::new();
    let mut id: usize = 0;
    while id < instances
        invariant
            id <= instances,
            colours@.len() == id,
            forall|j: int| 0 <= j < id ==> if selected == Some(j as usize) {
                (#[trigger] colours@[j]) is Some && forall|c: int|
                    0 <= c < 3 ==> (#[trigger] colours@[j]->0[c]).bits == WALK
            } else {
                colours@[j] is None
            },
        decreases instances - id,
    {
        let picked: bool = match selected {
            Some(other) => other == id,
            None => false,
        };
        if picked {
            let white: Single = Single { bits: WALK };
            colours.push(Some([white, white, white]));
        } else {
            colours.push(None);
        }
        id += 1;
    }
    colours
}

/// Losing focus stops the camera, whatever was held and whatever the panel did.
pub proof fn law_losing_focus_stops_the_camera(session: Session, consumed: bool)
    ensures
        !Event::Focused(false).stops(session.platform, consumed),
        session.after(Event::Focused(false)).input == Input::idle(),
{
}

/// Letting go of a movement key ends the movement, whatever the panel did: what
/// a press sets, the release clears, and nothing else changes.
pub proof fn law_letting_go_ends_the_movement(session: Session, key: Key, repeat: bool, consumed: bool)
    requires
        session.input.with(key, true) is Some,
    ensures
        ({
            let up = Event::KeyboardInput { key: Some(key), pressed: false, repeat };
            &&& !up.stops(session.platform, consumed)
            &&& session.after(up) == Session { input: session.input.with(key, false)->0, ..session }
        }),
{
}

/// Hiding the panel hides the panel and the key legend. The names stay up,
/// because they are the content of the frame and not its chrome. Pressing again
/// brings both back as they were.
pub proof fn law_hiding_the_panel_keeps_the_names(session: Session)
    requires
        session.panel is Some,
    ensures
        ({
            let press = Event::KeyboardInput { key: Some(Key::H), pressed: true, repeat: false };
            let once = session.after(press);
            &&& once == Session { panel: Some(!session.panel->0), ..session }
            &&& session.panel == Some(true) ==> !once.shows_legend()
            &&& once.show_labels == session.show_labels
            &&& once.after(press) == session
            &&& once.after(press).shows_legend() == session.shows_legend()
        }),
{
}

/// Letting go of the right button stops looking around.
pub proof fn law_letting_go_stops_looking(session: Session, consumed: bool)
    ensures
        ({
            let up = Event::MouseInput { button: Button::Right, pressed: false };
            &&& !up.stops(session.platform, consumed)
            &&& !session.after(up).input.looking
        }),
{
}

/// The controls do not differ between the platforms: a key that means something
/// everywhere asks for the same step on both.
pub proof fn law_view_keys_are_the_same_everywhere(session: Session, key: Key, repeat: bool, pressed: bool)
    requires
        meaning(key) is Some,
    ensures
        ({
            let event = Event::KeyboardInput { key: Some(key), pressed, repeat };
            let desktop = Session { platform: Platform::Desktop, ..session };
            let browser = Session { platform: Platform::Browser, ..session };
            &&& desktop.step(event) == browser.step(event)
            &&& pressed && !repeat ==> desktop.step(event) == Step::View(meaning(key)->0)
            &&& !(pressed && !repeat) ==> desktop.step(event) == Step::Nothing
            &&& desktop.after(event) == desktop
            &&& browser.after(event) == browser
        }),
{
}

/// In the browser there is nowhere to write a file, and no way to leave by key.
pub proof fn law_the_browser_neither_captures_nor_quits_by_key(
    session: Session,
    key: Option<Key>,
    pressed: bool,
    repeat: bool,
)
    requires
        session.platform == Platform::Browser,
    ensures
        session.step(Event::KeyboardInput { key, pressed, repeat }) != Step::Capture,
        session.step(Event::KeyboardInput { key, pressed, repeat }) != Step::Quit,
{
}

/// The panel takes what it claims only while it is shown.
pub proof fn law_a_hidden_panel_takes_nothing(session: Session, claimed: bool)
    ensures
        session.takes(claimed) <==> claimed && session.panel == Some(true),
{
}

/// What the window, the mouse and the frame clock lead to, event by event.
pub proof fn law_what_events_lead_to(session: Session, event: Event)
    requires
        !(event is KeyboardInput),
    ensures
        session.step(event) == Step::Quit <==> event is CloseRequested,
        session.step(event) == Step::Unfocused <==> event == Event::Focused(false),
        session.step(event) == Step::Hover <==> event is CursorMoved,
        session.step(event) == Step::Select <==> event == (Event::MouseInput {
            button: Button::Left,
            pressed: true,
        }),
        session.step(event) == Step::Scroll <==> event is MouseWheel,
        session.step(event) == Step::Touch <==> event is Touch && session.platform == Platform::Browser,
        session.step(event) == Step::Draw <==> event is RedrawRequested,
        forall|shown: bool|
            session.step(event) == Step::ShowCursor(shown) <==> session.platform == Platform::Desktop
                && event == (Event::MouseInput { button: Button::Right, pressed: !shown }),
        session.step(event) is Resize <==> event is Resized,
        session.step(event) != Step::Frame,
        session.step(event) != Step::Capture,
        !(session.step(event) is View),
        !(session.step(event) is PanelShown),
{
}

/// What the window and the mouse change in a session: losing focus lets go of
/// everything, the right button looks, a resize is taken down, and nothing else
/// changes anything.
pub proof fn law_what_events_change(session: Session, event: Event)
    requires
        !(event is KeyboardInput),
    ensures
        event == Event::Focused(false) ==> {
            let input = session.after(event).input;
            &&& session.after(event) == (Session { input, ..session })
            &&& !input.forward && !input.back && !input.left && !input.right && !input.up && !input.down
            &&& !input.fast && !input.slow && !input.looking
        },
        forall|down: bool|
            event == (Event::MouseInput { button: Button::Right, pressed: down }) ==> session.after(event)
                == (Session { input: Input { looking: down, ..session.input }, ..session }),
        event is Resized ==> {
            let viewport = session.after(event).viewport;
            &&& session.after(event) == (Session { viewport, ..session })
            &&& session.step(event) == Step::Resize(viewport.0, viewport.1)
        },
        !(event == Event::Focused(false)) && !(event is Resized) && !(event matches Event::MouseInput {
            button,
            ..
        } && button == Button::Right) ==> session.after(event) == session,
{
}

/// A resize is taken as it comes on the desktop; in the browser a side without a
/// length counts as one pixel.
pub proof fn law_resizing(session: Session, width: u32, height: u32)
    ensures
        ({
            let viewport = session.after(Event::Resized(width, height)).viewport;
            &&& width > 0 ==> viewport.0 == width
            &&& height > 0 ==> viewport.1 == height
            &&& width == 0 ==> viewport.0 == (if session.platform == Platform::Desktop {
                0u32
            } else {
                1u32
            })
            &&& height == 0 ==> viewport.1 == (if session.platform == Platform::Desktop {
                0u32
            } else {
                1u32
            })
        }),
{
}

/// What a key leads to. A movement key is taken down, held or not. Escape leaves
/// the desktop. Of the rest only a fresh press counts: H shows or hides the
/// panel, F frames, F12 captures on the desktop, and a view key is applied.
pub proof fn law_what_keys_lead_to(session: Session, key: Key, pressed: bool, repeat: bool)
    ensures
        ({
            let event = Event::KeyboardInput { key: Some(key), pressed, repeat };
            let moves = session.input.with(key, pressed) is Some;
            let fresh = pressed && !repeat;
            let desktop = session.platform == Platform::Desktop;
            &&& moves ==> session.step(event) == Step::Nothing && session.after(event) == (Session {
                input: session.input.with(key, pressed)->0,
                ..session
            })
            &&& key == Key::Escape ==> session.step(event) == (if pressed && desktop {
                Step::Quit
            } else {
                Step::Nothing
            })
            &&& !moves && key != Key::Escape && !fresh ==> session.step(event) == Step::Nothing
            &&& !moves && !(key == Key::H && fresh && session.panel is Some) ==> session.after(event)
                == session
            &&& key == Key::H && fresh ==> match session.panel {
                Some(shown) => session.step(event) == Step::PanelShown(!shown) && session.after(event) == (
                Session { panel: Some(!shown), ..session }),
                None => session.step(event) == Step::Nothing,
            }
            &&& fresh && key == Key::F ==> session.step(event) == Step::Frame
            &&& fresh && key == Key::F12 ==> session.step(event) == (if desktop {
                Step::Capture
            } else {
                Step::Nothing
            })
            &&& fresh && meaning(key) is Some ==> session.step(event) == Step::View(meaning(key)->0)
            &&& key == Key::Other ==> session.step(event) == Step::Nothing && session.after(event) == session
        }),
        ({
            let none = Event::KeyboardInput { key: None, pressed, repeat };
            session.step(none) == Step::Nothing && session.after(none) == session
        }),
{
}

} // verus!
