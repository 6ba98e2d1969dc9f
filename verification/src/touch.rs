//! Fingers, turned into camera motion.
//!
//! The desktop viewer spends eleven keys and two mouse buttons on navigation.
//! A phone has neither, so the whole of it has to come out of what a hand can
//! do on glass: one finger, two fingers, and time.
//!
//! The split is by finger count, which is the only division a user never has to
//! be taught. One finger turns the head. Two fingers move the body — the pair's
//! centre is a joystick and the gap between them is a throttle, so the same
//! grip that flies you somewhere also decides how fast. A double tap puts you
//! back where the whole plant is visible, which is the only way out of having
//! flown inside a wall.
//!
//! # Everything here is in CSS pixels
//!
//! A threshold in physical pixels would be three different gestures on three
//! different screens. A CSS pixel is roughly the same physical size everywhere,
//! which is the unit the hand actually knows about, so callers divide by the
//! pixel ratio on the way in.
//!
//! # Who measures
//!
//! This module keeps the fingers and decides what a touch means. Distances are
//! measured by the caller: [`Touches::survey`] says between which positions, and
//! the [`Reading`] that comes back is handed to [`Touches::on_touch`]. Times are
//! in nanoseconds from any fixed start.
use crate::single::{Single, ZERO};
use vstd::prelude::*;

verus! {

/// How far a finger may wander and still count as a tap: 10 CSS pixels.
///
/// That is under a millimetre and a half on a phone. A finger that is really
/// starting a drag beats that within the first frame or two.
pub const TAP_SLOP: u32 = 0x4120_0000;

/// How long a finger may stay down and still count as a tap: 0.25 s, and the
/// few nanoseconds that are lost when a time is rounded to single precision.
pub const TAP_TIME: u64 = 250_000_008;

/// How long after a tap lifts a second one still reads as a double tap: 0.3 s,
/// rounded likewise.
pub const DOUBLE_TAP_TIME: u64 = 300_000_016;

/// Centroid travel before the two-finger joystick registers: 12 CSS pixels.
///
/// Two fingers never land at the same instant and never lift at the same
/// instant. Without a deadzone the centroid jumps at both edges of every pinch,
/// and the camera lurches each time the user only meant to change speed.
pub const FLY_DEADZONE: u32 = 0x4140_0000;

/// Speed multiplier at full deflection: 2.
///
/// The desktop's shift key gives 5x, which is far too much on a control that
/// cannot be released precisely.
pub const FLY_BOOST: u32 = 0x4000_0000;

/// Fractional change in finger separation ignored as noise: 0.02.
///
/// Fingers tremble. Without this the base speed drifts while the user is
/// holding still, which reads as the viewer having a mind of its own.
pub const PINCH_DEADZONE: u32 = 0x3CA3_D70A;

/// Separations up to this one cannot be compared with: two to the minus 23.
pub const LEAST_SPAN: u32 = 0x3400_0000;

/// Something the camera should do now.
///
/// Flight is deliberately not in here. It is a sustained state rather than an
/// event, so it is read once per frame from [`Touches::fly`] instead of being
/// delivered on whichever touch happened to move last.
#[derive(Debug, Clone, Copy, PartialEq, Eq, Structural)]
pub enum Action {
    /// Turn by this much drag, in CSS pixels.
    Look { dx: Single, dy: Single },
    /// Multiply the base speed by this ratio.
    Speed(Single),
    /// Put the camera back where the whole plant is visible.
    Reframe,
}

/// Which phase of its life a touch is in.
#[derive(Debug, Clone, Copy, PartialEq, Eq, Structural)]
pub enum Phase {
    /// The finger landed.
    Started,
    /// The finger moved.
    Moved,
    /// The finger lifted, or the browser took the gesture away.
    Ended,
}

/// One finger, from the moment it lands to the moment it lifts.
#[derive(Debug, Clone, Copy, PartialEq, Eq)]
pub struct Finger {
    /// The pointer id, stable for this finger's whole life. That stability is
    /// what makes multi-touch tractable at all.
    pub id: u64,
    /// Where it is now.
    pub at: (Single, Single),
    /// When it landed.
    pub down: u64,
    /// Total distance travelled.
    ///
    /// Accumulated rather than measured start to end, so a finger that wanders
    /// away and comes back is not mistaken for one that never moved.
    pub travel: Single,
    /// Whether another finger was ever down at the same time.
    ///
    /// Without this, lifting from a two-finger gesture produces two taps, and
    /// two taps in quick succession are a double tap — so every pinch would end
    /// by throwing the camera back to the overview.
    pub shared: bool,
}

/// Which positions a touch event makes it necessary to measure between.
#[derive(Debug, Clone, Copy, PartialEq, Eq)]
pub struct Survey {
    /// Where the moving finger was, and how far it had come by then.
    pub from: Option<((Single, Single), Single)>,
    /// The first two fingers, once the event has been taken into account.
    pub pair: Option<((Single, Single), (Single, Single))>,
    /// The separation at the last pinch sample.
    pub span: Option<Single>,
}

/// What the caller measured.
#[derive(Debug, Clone, Copy, PartialEq, Eq)]
pub struct Reading {
    /// The moving finger's step.
    pub dx: Single,
    pub dy: Single,
    /// How far the moving finger has come in all, this step included.
    pub travel: Single,
    /// Mean position of the pair.
    pub centre: (Single, Single),
    /// Distance between the pair.
    pub gap: Single,
    /// The gap over the last sampled separation.
    pub ratio: Single,
    /// How far that ratio is from one, without its sign.
    pub change: Single,
}

/// The joystick: where the pair started and where the two fingers are.
#[derive(Debug, Clone, Copy, PartialEq, Eq)]
pub struct Joystick {
    pub origin: (Single, Single),
    pub first: (Single, Single),
    pub second: (Single, Single),
}

/// Flight: a unit direction and a speed multiplier.
#[derive(Debug, Clone, Copy, PartialEq, Eq, Structural)]
pub struct Flight {
    pub forward: Single,
    pub right: Single,
    pub throttle: Single,
}

/// The live touch state, as mathematics.
#[verifier::ext_equal]
pub struct Gesture {
    /// Active fingers, in the order they landed.
    pub fingers: Seq<Finger>,
    /// Centroid when the current two-finger gesture began.
    pub origin: Option<(Single, Single)>,
    /// Finger separation at the last pinch sample.
    pub span: Option<Single>,
    /// When the last qualifying tap lifted.
    pub tapped: Option<u64>,
}

/// The place of the first finger with an id at or after `from`, or the number of
/// fingers when there is none.
pub open spec fn place_from(fingers: Seq<Finger>, id: u64, from: int) -> int
    decreases fingers.len() - from,
{
    if from >= fingers.len() {
        fingers.len() as int
    } else if fingers[from].id == id {
        from
    } else {
        place_from(fingers, id, from + 1)
    }
}

/// The place of a finger, or the number of fingers when it is not down.
pub open spec fn place(fingers: Seq<Finger>, id: u64) -> int {
    place_from(fingers, id, 0)
}

/// Time from one moment to another, none when they are out of order.
pub open spec fn elapsed(from: u64, to: u64) -> int {
    if from <= to {
        to - from
    } else {
        0
    }
}

/// A finger that lifts now was only tapping: alone all its life, barely moved,
/// and quick.
pub open spec fn is_tap(finger: Finger, now: u64) -> bool {
    &&& !finger.shared
    &&& finger.travel.at_most(Single { bits: TAP_SLOP })
    &&& elapsed(finger.down, now) <= TAP_TIME
}

impl Gesture {
    /// No fingers, and no tap to remember.
    pub open spec fn none() -> Gesture {
        Gesture { fingers: Seq::empty(), origin: None, span: None, tapped: None }
    }

    /// The pair anchored on the fingers that are down now, if there are two.
    pub open spec fn anchored(self, reading: Reading) -> Gesture {
        if self.fingers.len() < 2 {
            self
        } else {
            Gesture { origin: Some(reading.centre), span: Some(reading.gap), ..self }
        }
    }

    /// Another finger lands.
    pub open spec fn started(self, id: u64, at: (Single, Single), now: u64, reading: Reading) -> Gesture {
        let others = self.fingers.map_values(|finger: Finger| Finger { shared: true, ..finger });
        let landed = Finger {
            id: id,
            at: at,
            down: now,
            travel: Single { bits: ZERO },
            shared: self.fingers.len() > 0,
        };
        Gesture { fingers: others.push(landed), ..self }.anchored(reading)
    }

    /// The pair's separation changed by more than a tremble.
    pub open spec fn pinches(self, reading: Reading) -> bool {
        match self.span {
            Some(previous) => {
                &&& !previous.at_most(Single { bits: LEAST_SPAN })
                &&& !reading.change.at_most(Single { bits: PINCH_DEADZONE })
            },
            None => false,
        }
    }

    /// A finger moves, and what that asks of the camera.
    pub open spec fn moved(self, id: u64, at: (Single, Single), reading: Reading) -> (
        Gesture,
        Option<Action>,
    ) {
        let i = place(self.fingers, id);
        if i >= self.fingers.len() {
            (self, None)
        } else {
            let carried = Finger { at: at, travel: reading.travel, ..self.fingers[i] };
            let now = Gesture { fingers: self.fingers.update(i, carried), ..self };
            if self.fingers.len() == 1 && !self.fingers[0].shared {
                (now, Some(Action::Look { dx: reading.dx, dy: reading.dy }))
            } else if self.fingers.len() >= 2 && self.pinches(reading) {
                (Gesture { span: Some(reading.gap), ..now }, Some(Action::Speed(reading.ratio)))
            } else {
                (now, None)
            }
        }
    }

    /// A finger lifts, and what that asks of the camera.
    pub open spec fn ended(self, id: u64, now: u64, reading: Reading) -> (Gesture, Option<Action>) {
        let i = place(self.fingers, id);
        if i >= self.fingers.len() {
            (self, None)
        } else {
            let finger = self.fingers[i];
            let rest = Gesture { fingers: self.fingers.remove(i), ..self };
            let left = if rest.fingers.len() < 2 {
                Gesture { origin: None, span: None, ..rest }
            } else {
                rest.anchored(reading)
            };
            if !is_tap(finger, now) {
                (left, None)
            } else {
                match self.tapped {
                    Some(previous) if elapsed(previous, now) <= DOUBLE_TAP_TIME => (
                        Gesture { tapped: None, ..left },
                        Some(Action::Reframe),
                    ),
                    _ => (Gesture { tapped: Some(now), ..left }, None),
                }
            }
        }
    }

    /// What a touch event makes of a gesture, and what it asks of the camera.
    pub open spec fn after(
        self,
        id: u64,
        phase: Phase,
        at: (Single, Single),
        now: u64,
        reading: Reading,
    ) -> (Gesture, Option<Action>) {
        match phase {
            Phase::Started => (self.started(id, at, now, reading), None),
            Phase::Moved => self.moved(id, at, reading),
            Phase::Ended => self.ended(id, now, reading),
        }
    }

    /// A pair is anchored exactly while at least two fingers are down, and
    /// fingers that are down together all know it.
    pub open spec fn coherent(self) -> bool {
        &&& self.origin is Some <==> self.fingers.len() >= 2
        &&& self.span is Some <==> self.fingers.len() >= 2
        &&& self.fingers.len() >= 2 ==> forall|i: int| 0 <= i < self.fingers.len() ==> (
        #[trigger] self.fingers[i]).shared
    }

    /// Where the joystick is, while a pair is down.
    pub open spec fn joystick(self) -> Option<Joystick> {
        match self.origin {
            Some(origin) if self.fingers.len() >= 2 => Some(
                Joystick { origin: origin, first: self.fingers[0].at, second: self.fingers[1].at },
            ),
            _ => None,
        }
    }

    /// What flies: the push with its throttle held within bounds, once a pair is
    /// down and its centre has left the deadzone.
    pub open spec fn flight(self, distance: Single, push: Flight) -> Option<Flight> {
        if self.joystick() is Some && !distance.at_most(Single { bits: FLY_DEADZONE }) {
            Some(
                Flight {
                    throttle: push.throttle.held(Single { bits: ZERO }, Single { bits: FLY_BOOST }),
                    ..push
                },
            )
        } else {
            None
        }
    }

    /// Where the first two of some fingers are.
    pub open spec fn pair(fingers: Seq<Finger>) -> Option<((Single, Single), (Single, Single))> {
        if fingers.len() >= 2 {
            Some((fingers[0].at, fingers[1].at))
        } else {
            None
        }
    }

    /// What there is to measure for an event.
    pub open spec fn surveyed(self, id: u64, phase: Phase, at: (Single, Single)) -> Survey {
        let i = place(self.fingers, id);
        let known = i < self.fingers.len();
        let fingers = match phase {
            Phase::Started => self.fingers.push(
                Finger { id: id, at: at, down: 0, travel: Single { bits: ZERO }, shared: false },
            ),
            Phase::Moved => if known {
                self.fingers.update(i, Finger { at: at, ..self.fingers[i] })
            } else {
                self.fingers
            },
            Phase::Ended => if known {
                self.fingers.remove(i)
            } else {
                self.fingers
            },
        };
        Survey {
            from: if phase == Phase::Moved && known {
                Some((self.fingers[i].at, self.fingers[i].travel))
            } else {
                None
            },
            pair: Gesture::pair(fingers),
            span: self.span,
        }
    }
}

/// The live touch state.
pub struct Touches {
    fingers: Vec<Finger>,
    origin: Option<(Single, Single)>,
    span: Option<Single>,
    tapped: Option<u64>,
}

impl View for Touches {
    type V = Gesture;

    closed spec fn view(&self) -> Gesture {
        Gesture { fingers: self.fingers@, origin: self.origin, span: self.span, tapped: self.tapped }
    }
}

impl Touches {
    /// No finger is down.
    #[must_use]
    pub fn new() -> (r: Self)
        ensures
            r@ == Gesture::none(),
            r@.fingers.len() == 0,
            r@.origin is None,
            r@.span is None,
            r@.tapped is None,
    {
        let touches = Touches { fingers: Vec::new(), origin: None, span: None, tapped: None };
        assert(touches@ =~= Gesture::none());
        touches
    }

    /// Forget every finger.
    ///
    /// Switching tab mid-drag means the lift is delivered to another page and
    /// never arrives here, and the camera would still be flying on return.
    pub fn clear(&mut self)
        ensures
            final(self)@ == (Gesture { tapped: old(self)@.tapped, ..Gesture::none() }),
            final(self)@.fingers.len() == 0,
            final(self)@.origin is None,
            final(self)@.span is None,
            final(self)@.tapped == old(self)@.tapped,
    {
        self.fingers.clear();
        self.origin = None;
        self.span = None;
        assert(self@ =~= (Gesture { tapped: old(self)@.tapped, ..Gesture::none() }));
    }

    /// Whether any finger is down.
    #[must_use]
    pub fn active(&self) -> (r: bool)
        ensures
            r == (self@.fingers.len() > 0),
    {
        self.fingers.len() > 0
    }

    fn find(&self, id: u64) -> (r: usize)
        ensures
            r == place(self@.fingers, id),
            r <= self@.fingers.len(),
            r < self@.fingers.len() ==> self@.fingers[r as int].id == id,
    {
        let mut i: usize = 0;
        while i < self.fingers.len()
            invariant
                i <= self.fingers@.len(),
                place(self.fingers@, id) == place_from(self.fingers@, id, i as int),
            decreases self.fingers@.len() - i,
        {
            if self.fingers[i].id == id {
                return i;
            }
            i += 1;
        }
        i
    }

    /// What the caller has to measure before it feeds a touch event.
    #[must_use]
    pub fn survey(&self, id: u64, phase: Phase, at: (Single, Single)) -> (r: Survey)
        ensures
            r == self@.surveyed(id, phase, at),
    {
        let i: usize = self.find(id);
        let count: usize = self.fingers.len();
        let known: bool = i < count;
        let from: Option<((Single, Single), Single)> = if phase == Phase::Moved && known {
            Some((self.fingers[i].at, self.fingers[i].travel))
        } else {
            None
        };
        let pair: Option<((Single, Single), (Single, Single))> = match phase {
            Phase::Started => {
                if count >= 2 {
                    Some((self.fingers[0].at, self.fingers[1].at))
                } else if count == 1 {
                    Some((self.fingers[0].at, at))
                } else {
                    None
                }
            },
            Phase::Moved => {
                if count >= 2 {
                    let first: (Single, Single) = if i == 0 { at } else { self.fingers[0].at };
                    let second: (Single, Single) = if i == 1 { at } else { self.fingers[1].at };
                    Some((first, second))
                } else {
                    None
                }
            },
            Phase::Ended => {
                if !known {
                    if count >= 2 {
                        Some((self.fingers[0].at, self.fingers[1].at))
                    } else {
                        None
                    }
                } else if count >= 3 {
                    let first: (Single, Single) = if i == 0 { self.fingers[1].at } else { self.fingers[0].at };
                    let second: (Single, Single) = if i <= 1 { self.fingers[2].at } else { self.fingers[1].at };
                    Some((first, second))
                } else {
                    None
                }
            },
        };
        Survey { from, pair, span: self.span }
    }

    /// Feed one touch event, with what was measured for it.
    pub fn on_touch(
        &mut self,
        id: u64,
        phase: Phase,
        at: (Single, Single),
        now: u64,
        reading: Reading,
    ) -> (r: Option<Action>)
        ensures
            final(self)@ == old(self)@.after(id, phase, at, now, reading).0,
            r == old(self)@.after(id, phase, at, now, reading).1,
    {
        match phase {
            Phase::Started => {
                self.started(id, at, now, reading);
                None
            },
            Phase::Moved => self.moved(id, at, reading),
            Phase::Ended => self.ended(id, now, reading),
        }
    }

    fn started(&mut self, id: u64, at: (Single, Single), now: u64, reading: Reading)
        ensures
            final(self)@ == old(self)@.started(id, at, now, reading),
    {
        let shared: bool = self.fingers.len() > 0;
        let mut i: usize = 0;
        while i < self.fingers.len()
            invariant
                i <= self.fingers@.len(),
                self.fingers@.len() == old(self).fingers@.len(),
                self.origin == old(self).origin,
                self.span == old(self).span,
                self.tapped == old(self).tapped,
                forall|j: int| 0 <= j < i ==> (#[trigger] self.fingers@[j]) == (Finger {
                    shared: true,
                    ..old(self).fingers@[j]
                }),
                forall|j: int| i <= j < self.fingers@.len() ==> (#[trigger] self.fingers@[j])
                    == old(self).fingers@[j],
            decreases self.fingers@.len() - i,
        {
            self.fingers[i].shared = true;
            i += 1;
        }
        self.fingers.push(Finger { id, at, down: now, travel: Single { bits: ZERO }, shared });
        self.begin_pair(reading);
        assert(self@ =~= old(self)@.started(id, at, now, reading));
    }

    /// Anchor the two-finger gesture on the fingers that are down now.
    fn begin_pair(&mut self, reading: Reading)
        ensures
            final(self)@ == old(self)@.anchored(reading),
    {
        if self.fingers.len() >= 2 {
            self.origin = Some(reading.centre);
            self.span = Some(reading.gap);
        }
    }

    fn moved(&mut self, id: u64, at: (Single, Single), reading: Reading) -> (r: Option<Action>)
        ensures
            final(self)@ == old(self)@.moved(id, at, reading).0,
            r == old(self)@.moved(id, at, reading).1,
    {
        let i: usize = self.find(id);
        if i >= self.fingers.len() {
            return None;
        }
        self.fingers[i].at = at;
        self.fingers[i].travel = reading.travel;
        let count: usize = self.fingers.len();
        let action: Option<Action> = if count == 1 {
            // One finger turns the head, and only if it has been alone for its
            // whole life. A finger left over from a pinch keeps flying the
            // camera it was already flying rather than suddenly steering it.
            if !self.fingers[0].shared {
                Some(Action::Look { dx: reading.dx, dy: reading.dy })
            } else {
                None
            }
        } else {
            self.pinch(reading)
        };
        assert(self@ =~= old(self)@.moved(id, at, reading).0);
        action
    }

    fn pinch(&mut self, reading: Reading) -> (r: Option<Action>)
        ensures
            final(self)@ == (if old(self)@.pinches(reading) {
                Gesture { span: Some(reading.gap), ..old(self)@ }
            } else {
                old(self)@
            }),
            r == (if old(self)@.pinches(reading) {
                Some(Action::Speed(reading.ratio))
            } else {
                None
            }),
    {
        match self.span {
            Some(previous) => {
                if previous.le(Single { bits: LEAST_SPAN }) {
                    None
                } else if reading.change.le(Single { bits: PINCH_DEADZONE }) {
                    None
                } else {
                    self.span = Some(reading.gap);
                    Some(Action::Speed(reading.ratio))
                }
            },
            None => None,
        }
    }

    fn ended(&mut self, id: u64, now: u64, reading: Reading) -> (r: Option<Action>)
        ensures
            final(self)@ == old(self)@.ended(id, now, reading).0,
            r == old(self)@.ended(id, now, reading).1,
    {
        let i: usize = self.find(id);
        if i >= self.fingers.len() {
            return None;
        }
        let finger: Finger = self.fingers.remove(i);
        // Dropping below two fingers ends the pair. Putting a finger back down
        // later starts a fresh one from wherever the hand now is, rather than
        // measuring against a centroid from a gesture that is over.
        if self.fingers.len() < 2 {
            self.origin = None;
            self.span = None;
        } else {
            self.begin_pair(reading);
        }
        let held: u64 = if finger.down <= now { now - finger.down } else { 0 };
        let tap: bool = !finger.shared && finger.travel.le(Single { bits: TAP_SLOP }) && held <= TAP_TIME;
        let action: Option<Action> = if !tap {
            None
        } else {
            let second: bool = match self.tapped {
                Some(previous) => {
                    let since: u64 = if previous <= now { now - previous } else { 0 };
                    since <= DOUBLE_TAP_TIME
                },
                None => false,
            };
            if second {
                // Consumed, so a third tap begins a new pair rather than firing
                // again on every tap after the second.
                self.tapped = None;
                Some(Action::Reframe)
            } else {
                self.tapped = Some(now);
                None
            }
        };
        assert(self@ =~= old(self)@.ended(id, now, reading).0);
        action
    }

    /// The positions to measure flight from, while a pair is down.
    #[must_use]
    pub fn joystick(&self) -> (r: Option<Joystick>)
        ensures
            r == self@.joystick(),
    {
        match self.origin {
            Some(origin) => {
                if self.fingers.len() >= 2 {
                    Some(Joystick { origin, first: self.fingers[0].at, second: self.fingers[1].at })
                } else {
                    None
                }
            },
            None => None,
        }
    }

    /// Sustained flight. `distance` is how far the pair's centre has come from
    /// where it started and `push` what that would amount to unbounded; neither
    /// counts unless a pair is down and has left the deadzone.
    #[must_use]
    pub fn fly(&self, distance: Single, push: Flight) -> (r: Option<Flight>)
        ensures
            r == self@.flight(distance, push),
    {
        if self.joystick().is_none() || distance.le(Single { bits: FLY_DEADZONE }) {
            None
        } else {
            let throttle: Single = push.throttle.clamp(Single { bits: ZERO }, Single { bits: FLY_BOOST });
            Some(Flight { forward: push.forward, right: push.right, throttle })
        }
    }
}

proof fn lemma_place_bounds(fingers: Seq<Finger>, id: u64, from: int)
    requires
        0 <= from,
    ensures
        from <= place_from(fingers, id, from) <= fingers.len() || place_from(fingers, id, from) == fingers.len(),
    decreases fingers.len() - from,
{
    if from < fingers.len() && fingers[from].id != id {
        lemma_place_bounds(fingers, id, from + 1);
    }
}

/// Every event keeps the gesture coherent: the pair is anchored while two
/// fingers are down and never otherwise, and no finger that was ever down
/// beside another one forgets it.
pub proof fn law_gestures_stay_coherent(
    g: Gesture,
    id: u64,
    phase: Phase,
    at: (Single, Single),
    now: u64,
    reading: Reading,
)
    requires
        g.coherent(),
    ensures
        g.after(id, phase, at, now, reading).0.coherent(),
{
    lemma_place_bounds(g.fingers, id, 0);
    let next = g.after(id, phase, at, now, reading).0;
    if next.fingers.len() >= 2 {
        assert forall|i: int| 0 <= i < next.fingers.len() implies (#[trigger] next.fingers[i]).shared by {
            match phase {
                Phase::Started => {},
                Phase::Moved => {
                    let _ = g.fingers[i];
                },
                Phase::Ended => {
                    let p = place(g.fingers, id);
                    if p >= g.fingers.len() || i < p {
                        let _ = g.fingers[i];
                    } else {
                        let _ = g.fingers[i + 1];
                    }
                },
            }
        }
    }
}

/// Lifting a finger that was ever down beside another one is never a tap: it
/// moves nothing and is not remembered, so no pinch can end in a reframe.
pub proof fn law_lifting_from_a_pinch_is_not_a_tap(g: Gesture, id: u64, now: u64, reading: Reading)
    requires
        place(g.fingers, id) < g.fingers.len(),
        g.fingers[place(g.fingers, id)].shared,
    ensures
        g.ended(id, now, reading).1 is None,
        g.ended(id, now, reading).0.tapped == g.tapped,
{
}

/// While two fingers are down, neither of them can reframe by lifting, and the
/// one that stays behind cannot steer.
pub proof fn law_a_pair_neither_taps_nor_steers(
    g: Gesture,
    id: u64,
    other: u64,
    at: (Single, Single),
    now: u64,
    reading: Reading,
    later: Reading,
)
    requires
        g.coherent(),
        g.fingers.len() == 2,
        place(g.fingers, id) < 2,
    ensures
        g.ended(id, now, reading).1 is None,
        g.ended(id, now, reading).0.moved(other, at, later).1 is None,
{
    lemma_place_bounds(g.fingers, id, 0);
    assert(g.fingers[0].shared && g.fingers[1].shared);
    assert(g.ended(id, now, reading).0.fingers[0].shared);
}

/// A double tap is spent once it has fired: the tap after it starts over.
pub proof fn law_a_third_tap_starts_over(
    g: Gesture,
    id: u64,
    now: u64,
    reading: Reading,
    next: u64,
    at: (Single, Single),
    down: u64,
    up: u64,
    later: Reading,
)
    requires
        g.ended(id, now, reading).1 == Some(Action::Reframe),
    ensures
        g.ended(id, now, reading).0.tapped is None,
        g.ended(id, now, reading).0.started(next, at, down, later).ended(next, up, later).1 is None,
{
}

/// After everything is forgotten nothing flies, and the late lift or move of a
/// finger that was down does nothing.
pub proof fn law_forgotten_fingers_do_nothing(
    tapped: Option<u64>,
    id: u64,
    at: (Single, Single),
    now: u64,
    reading: Reading,
)
    ensures
        ({
            let cleared = Gesture { tapped: tapped, ..Gesture::none() };
            &&& cleared.joystick() is None
            &&& forall|distance: Single, push: Flight| #[trigger] cleared.flight(distance, push) is None
            &&& cleared.moved(id, at, reading) == (cleared, None::<Action>)
            &&& cleared.ended(id, now, reading) == (cleared, None::<Action>)
        }),
{
}

/// Only two fingers or more fly, only past the deadzone, in the direction that
/// they push, and no faster than full throttle allows.
pub proof fn law_flight(g: Gesture, distance: Single, push: Flight)
    requires
        g.coherent(),
    ensures
        g.flight(distance, push) is Some <==> g.fingers.len() >= 2 && !distance.at_most(
            Single { bits: FLY_DEADZONE },
        ),
        g.flight(distance, push) matches Some(flight) ==> {
            &&& flight.forward == push.forward
            &&& flight.right == push.right
            &&& !push.throttle.nan() ==> Single { bits: ZERO }.at_most(flight.throttle)
                && flight.throttle.at_most(Single { bits: FLY_BOOST })
            &&& Single { bits: ZERO }.at_most(push.throttle) && push.throttle.at_most(
                Single { bits: FLY_BOOST },
            ) ==> flight == push
        },
{
}

/// The place of a finger that is down is the first with its id.
pub proof fn law_a_finger_is_found_by_its_id(fingers: Seq<Finger>, id: u64)
    ensures
        0 <= place(fingers, id) <= fingers.len(),
        place(fingers, id) < fingers.len() ==> fingers[place(fingers, id)].id == id,
        forall|j: int| 0 <= j < place(fingers, id) ==> (#[trigger] fingers[j]).id != id,
{
    lemma_found(fingers, id, 0);
}

proof fn lemma_found(fingers: Seq<Finger>, id: u64, from: int)
    requires
        0 <= from <= fingers.len(),
    ensures
        from <= place_from(fingers, id, from) <= fingers.len(),
        place_from(fingers, id, from) < fingers.len() ==> fingers[place_from(fingers, id, from)].id == id,
        forall|j: int| from <= j < place_from(fingers, id, from) ==> (#[trigger] fingers[j]).id != id,
    decreases fingers.len() - from,
{
    if from < fingers.len() && fingers[from].id != id {
        lemma_found(fingers, id, from + 1);
    }
}

/// A finger that lands joins those that are down, at its place and time and
/// without having moved. From then on all of them know that they were not alone,
/// and the pair is anchored on what was measured, if there is one now.
pub proof fn law_a_finger_lands(
    g: Gesture,
    id: u64,
    at: (Single, Single),
    now: u64,
    reading: Reading,
)
    ensures
        ({
            let (after, action) = g.after(id, Phase::Started, at, now, reading);
            let n = g.fingers.len() as int;
            &&& action is None
            &&& after.fingers.len() == n + 1
            &&& after.fingers[n].id == id
            &&& after.fingers[n].at == at
            &&& after.fingers[n].down == now
            &&& after.fingers[n].travel.bits == 0
            &&& after.fingers[n].shared <==> n > 0
            &&& forall|i: int|
                0 <= i < n ==> {
                    &&& (#[trigger] after.fingers[i]).id == g.fingers[i].id
                    &&& after.fingers[i].at == g.fingers[i].at
                    &&& after.fingers[i].down == g.fingers[i].down
                    &&& after.fingers[i].travel == g.fingers[i].travel
                    &&& after.fingers[i].shared
                }
            &&& after.tapped == g.tapped
            &&& n > 0 ==> after.origin == Some(reading.centre) && after.span == Some(reading.gap)
            &&& n == 0 ==> after.origin == g.origin && after.span == g.span
        }),
{
}

/// A finger that moves is where it moved to and has come as far as was measured;
/// nothing else about the fingers changes.
pub proof fn law_a_finger_moves(
    g: Gesture,
    id: u64,
    at: (Single, Single),
    now: u64,
    reading: Reading,
    i: int,
)
    requires
        0 <= i < g.fingers.len(),
        g.fingers[i].id == id,
        forall|j: int| 0 <= j < i ==> (#[trigger] g.fingers[j]).id != id,
    ensures
        ({
            let (after, action) = g.after(id, Phase::Moved, at, now, reading);
            let one = after.fingers[i];
            &&& after.fingers.len() == g.fingers.len()
            &&& one.at == at
            &&& one.travel == reading.travel
            &&& one.id == id
            &&& one.down == g.fingers[i].down
            &&& one.shared == g.fingers[i].shared
            &&& forall|j: int|
                0 <= j < g.fingers.len() && j != i ==> (#[trigger] after.fingers[j]) == g.fingers[j]
            &&& after.origin == g.origin
            &&& after.tapped == g.tapped
        }),
{
    law_a_finger_is_found_by_its_id(g.fingers, id);
    let p = place(g.fingers, id);
    if p < i {
        assert(g.fingers[p].id != id);
    }
}

/// What a moving finger asks for: alone all its life, it turns the camera by its
/// step; in a pair, it changes the speed by the ratio of the separations, once
/// that is more than two hundredths from one, and the separation is taken as the
/// new one; otherwise it asks for nothing.
pub proof fn law_what_moving_asks_for(
    g: Gesture,
    id: u64,
    at: (Single, Single),
    now: u64,
    reading: Reading,
    i: int,
)
    requires
        0 <= i < g.fingers.len(),
        g.fingers[i].id == id,
    ensures
        ({
            let (after, action) = g.after(id, Phase::Moved, at, now, reading);
            let pinch = g.fingers.len() >= 2 && g.span is Some && !g.span->0.at_most(
                Single { bits: 0x3400_0000 },
            ) && !reading.change.at_most(Single { bits: 0x3CA3_D70A });
            let look = g.fingers.len() == 1 && !g.fingers[0].shared;
            &&& look ==> action == Some(Action::Look { dx: reading.dx, dy: reading.dy })
            &&& pinch ==> action == Some(Action::Speed(reading.ratio)) && after.span == Some(reading.gap)
            &&& !pinch ==> after.span == g.span
            &&& !look && !pinch ==> action is None
        }),
{
    law_a_finger_is_found_by_its_id(g.fingers, id);
}

/// A finger that lifts is gone, and the others stay as they were, in order. The
/// pair ends when fewer than two are left, and is anchored anew when two or more
/// are.
pub proof fn law_a_finger_lifts(
    g: Gesture,
    id: u64,
    at: (Single, Single),
    now: u64,
    reading: Reading,
    i: int,
)
    requires
        0 <= i < g.fingers.len(),
        g.fingers[i].id == id,
        forall|j: int| 0 <= j < i ==> (#[trigger] g.fingers[j]).id != id,
    ensures
        ({
            let after = g.after(id, Phase::Ended, at, now, reading).0;
            let n = g.fingers.len() as int;
            &&& after.fingers.len() == n - 1
            &&& forall|j: int| 0 <= j < i ==> (#[trigger] after.fingers[j]) == g.fingers[j]
            &&& forall|j: int| i <= j < n - 1 ==> (#[trigger] after.fingers[j]) == g.fingers[j + 1]
            &&& n <= 2 ==> after.origin is None && after.span is None
            &&& n > 2 ==> after.origin == Some(reading.centre) && after.span == Some(reading.gap)
        }),
{
    law_a_finger_is_found_by_its_id(g.fingers, id);
    let p = place(g.fingers, id);
    if p < i {
        assert(g.fingers[p].id != id);
    }
}

/// A finger that lifts was a tap when it was alone all its life, came no further
/// than ten pixels, and stayed no longer than a quarter of a second. A tap within
/// three tenths of a second of another reframes and is spent; any other tap is
/// remembered; what is no tap asks for nothing and changes nothing of that. Times
/// are compared as single precision has them.
pub proof fn law_what_lifting_asks_for(
    g: Gesture,
    id: u64,
    at: (Single, Single),
    now: u64,
    reading: Reading,
    i: int,
)
    requires
        0 <= i < g.fingers.len(),
        g.fingers[i].id == id,
        forall|j: int| 0 <= j < i ==> (#[trigger] g.fingers[j]).id != id,
    ensures
        ({
            let (after, action) = g.after(id, Phase::Ended, at, now, reading);
            let finger = g.fingers[i];
            let tap = !finger.shared && finger.travel.at_most(Single { bits: 0x4120_0000 }) && now
                <= finger.down + 250_000_008;
            let second = g.tapped is Some && now <= g.tapped->0 + 300_000_016;
            &&& action is Some <==> tap && second
            &&& tap && second ==> action == Some(Action::Reframe) && after.tapped is None
            &&& tap && !second ==> after.tapped == Some(now)
            &&& !tap ==> after.tapped == g.tapped
        }),
{
    law_a_finger_is_found_by_its_id(g.fingers, id);
    let p = place(g.fingers, id);
    if p < i {
        assert(g.fingers[p].id != id);
    }
}

/// A finger that is not down neither moves nor lifts.
pub proof fn law_an_unknown_finger_does_nothing(
    g: Gesture,
    id: u64,
    phase: Phase,
    at: (Single, Single),
    now: u64,
    reading: Reading,
)
    requires
        phase != Phase::Started,
        forall|j: int| 0 <= j < g.fingers.len() ==> (#[trigger] g.fingers[j]).id != id,
    ensures
        g.after(id, phase, at, now, reading) == (g, None::<Action>),
{
    law_a_finger_is_found_by_its_id(g.fingers, id);
}

/// What is to be measured for an event is measured between the fingers as the
/// event leaves them: the first two, if there are two then. The step is measured
/// from where the moving finger was, and the separation against the last sample.
pub proof fn law_what_is_measured(
    g: Gesture,
    id: u64,
    phase: Phase,
    at: (Single, Single),
    now: u64,
    reading: Reading,
    i: int,
)
    ensures
        ({
            let survey = g.surveyed(id, phase, at);
            let after = g.after(id, phase, at, now, reading).0;
            &&& survey.pair is Some <==> after.fingers.len() >= 2
            &&& survey.pair is Some ==> survey.pair == Some((after.fingers[0].at, after.fingers[1].at))
            &&& survey.span == g.span
            &&& phase != Phase::Moved ==> survey.from is None
            &&& phase == Phase::Moved && 0 <= i < g.fingers.len() && g.fingers[i].id == id && (forall|
                j: int,
            | 0 <= j < i ==> (#[trigger] g.fingers[j]).id != id) ==> survey.from == Some(
                (g.fingers[i].at, g.fingers[i].travel),
            )
        }),
{
    law_a_finger_is_found_by_its_id(g.fingers, id);
    let p = place(g.fingers, id);
    if 0 <= i < p {
        assert(g.fingers[i].id != id);
    }
    if phase == Phase::Ended && p < g.fingers.len() {
        let rest = g.fingers.remove(p);
        if rest.len() >= 2 {
            assert(g.after(id, phase, at, now, reading).0.fingers == rest);
        }
    }
}

/// The joystick is there while two fingers are down and their start is known: it
/// is where they started and where the first two are.
pub proof fn law_the_joystick(g: Gesture)
    ensures
        g.joystick() is Some <==> g.origin is Some && g.fingers.len() >= 2,
        g.joystick() matches Some(stick) ==> {
            &&& Some(stick.origin) == g.origin
            &&& stick.first == g.fingers[0].at
            &&& stick.second == g.fingers[1].at
        },
{
}

/// Flight starts beyond twelve pixels and never goes beyond twice the speed.
pub proof fn law_the_limits_of_flight(g: Gesture, distance: Single, push: Flight)
    requires
        g.coherent(),
    ensures
        g.flight(distance, push) is Some <==> g.fingers.len() >= 2 && !distance.at_most(
            Single { bits: 0x4140_0000 },
        ),
        g.flight(distance, push) matches Some(flight) ==> {
            &&& flight.forward == push.forward
            &&& flight.right == push.right
            &&& flight.throttle == push.throttle.held(
                Single { bits: 0 },
                Single { bits: 0x4000_0000 },
            )
        },
{
}

/// A gesture is coherent when a pair is anchored exactly while two fingers are
/// down, and all of them know that they are not alone.
pub proof fn law_what_coherent_means(g: Gesture)
    requires
        g.coherent(),
    ensures
        g.fingers.len() >= 2 ==> g.origin is Some && g.span is Some && forall|i: int|
            0 <= i < g.fingers.len() ==> (#[trigger] g.fingers[i]).shared,
        g.fingers.len() < 2 ==> g.origin is None && g.span is None,
{
}

} // verus!
