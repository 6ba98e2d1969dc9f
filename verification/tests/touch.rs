use plant::single::Single;
use plant::touch::{Action, Flight, Phase, Reading, Touches};
use std::time::Duration;

fn single(x: f32) -> Single {
    Single { bits: x.to_bits() }
}

fn number(x: Single) -> f32 {
    f32::from_bits(x.bits)
}

/// Seconds as nanoseconds.
fn at(seconds: f32) -> u64 {
    Duration::from_secs_f32(seconds).as_nanos() as u64
}

/// A hand on the glass, with somebody to measure for it.
struct Hand {
    touches: Touches,
}

impl Hand {
    fn new() -> Self {
        Self { touches: Touches::new() }
    }

    fn touch(&mut self, id: u64, phase: Phase, to: (f32, f32), now: u64) -> Option<Action> {
        let place = (single(to.0), single(to.1));
        let survey = self.touches.survey(id, phase, place);
        let (dx, dy, travel) = match survey.from {
            Some((from, travel)) => {
                let (dx, dy) = (to.0 - number(from.0), to.1 - number(from.1));
                (dx, dy, number(travel) + dx.hypot(dy))
            }
            None => (0.0, 0.0, 0.0),
        };
        let (centre, gap) = match survey.pair {
            Some((a, b)) => {
                let (a, b) = ((number(a.0), number(a.1)), (number(b.0), number(b.1)));
                (
                    ((a.0 + b.0) * 0.5, (a.1 + b.1) * 0.5),
                    (a.0 - b.0).hypot(a.1 - b.1),
                )
            }
            None => ((0.0, 0.0), 0.0),
        };
        let ratio = survey.span.map_or(1.0, |span| gap / number(span));
        self.touches.on_touch(
            id,
            phase,
            place,
            now,
            Reading {
                dx: single(dx),
                dy: single(dy),
                travel: single(travel),
                centre: (single(centre.0), single(centre.1)),
                gap: single(gap),
                ratio: single(ratio),
                change: single((ratio - 1.0).abs()),
            },
        )
    }

    fn fly(&self) -> Option<(f32, f32, f32)> {
        let stick = self.touches.joystick()?;
        let centre = (
            (number(stick.first.0) + number(stick.second.0)) * 0.5,
            (number(stick.first.1) + number(stick.second.1)) * 0.5,
        );
        let (dx, dy) = (
            centre.0 - number(stick.origin.0),
            centre.1 - number(stick.origin.1),
        );
        let distance = dx.hypot(dy);
        let push = Flight {
            forward: single(-dy / distance),
            right: single(dx / distance),
            throttle: single((distance - 12.0) / (90.0 - 12.0) * 2.0),
        };
        let flight = self.touches.fly(single(distance), push)?;
        Some((number(flight.forward), number(flight.right), number(flight.throttle)))
    }
}

#[test]
fn one_finger_drag_turns_the_camera() {
    let mut hand = Hand::new();
    assert_eq!(hand.touch(1, Phase::Started, (100.0, 100.0), 0), None);
    assert_eq!(
        hand.touch(1, Phase::Moved, (140.0, 110.0), at(0.02)),
        Some(Action::Look { dx: single(40.0), dy: single(10.0) })
    );
}

#[test]
fn two_fingers_fly_and_the_pair_pushed_up_goes_forward() {
    let mut hand = Hand::new();
    hand.touch(1, Phase::Started, (100.0, 300.0), 0);
    hand.touch(2, Phase::Started, (200.0, 300.0), 0);
    assert_eq!(hand.fly(), None, "resting fingers must not fly");

    // Slide both fingers a long way up the glass.
    hand.touch(1, Phase::Moved, (100.0, 200.0), at(0.05));
    hand.touch(2, Phase::Moved, (200.0, 200.0), at(0.05));
    let (forward, right, throttle) = hand.fly().expect("the pair has left the deadzone");
    assert!(forward > 0.99, "up the screen is forward, got {forward}");
    assert!(right.abs() < 0.01, "no sideways component, got {right}");
    assert!(throttle > 0.0);
    // A hundred pixels are past full deflection.
    assert_eq!(throttle, 2.0);
}

#[test]
fn spreading_the_fingers_raises_the_speed() {
    let mut hand = Hand::new();
    hand.touch(1, Phase::Started, (100.0, 300.0), 0);
    hand.touch(2, Phase::Started, (200.0, 300.0), 0);
    // 100 px apart becomes 200 px apart.
    let action = hand.touch(2, Phase::Moved, (300.0, 300.0), at(0.05));
    match action {
        Some(Action::Speed(ratio)) => {
            let ratio = number(ratio);
            assert!((ratio - 2.0).abs() < 0.001, "got {ratio}");
        }
        other => panic!("expected a speed change, got {other:?}"),
    }
}

#[test]
fn a_double_tap_reframes() {
    let mut hand = Hand::new();
    hand.touch(1, Phase::Started, (50.0, 50.0), 0);
    assert_eq!(hand.touch(1, Phase::Ended, (50.0, 50.0), at(0.05)), None);
    hand.touch(2, Phase::Started, (52.0, 51.0), at(0.15));
    assert_eq!(
        hand.touch(2, Phase::Ended, (52.0, 51.0), at(0.20)),
        Some(Action::Reframe)
    );
}

/// Two fingers lifting off a pinch look exactly like two quick taps, and would
/// reframe the camera every time.
#[test]
fn lifting_from_a_pinch_is_not_a_double_tap() {
    let mut hand = Hand::new();
    hand.touch(1, Phase::Started, (100.0, 300.0), 0);
    hand.touch(2, Phase::Started, (200.0, 300.0), 0);
    assert_eq!(hand.touch(1, Phase::Ended, (100.0, 300.0), at(0.05)), None);
    assert_eq!(hand.touch(2, Phase::Ended, (200.0, 300.0), at(0.08)), None);
}

#[test]
fn a_slow_press_is_not_a_tap() {
    let mut hand = Hand::new();
    hand.touch(1, Phase::Started, (50.0, 50.0), 0);
    assert_eq!(hand.touch(1, Phase::Ended, (50.0, 50.0), at(0.5)), None);
    hand.touch(2, Phase::Started, (50.0, 50.0), at(0.6));
    assert_eq!(
        hand.touch(2, Phase::Ended, (50.0, 50.0), at(0.65)),
        None,
        "the first press never counted, so this is a first tap"
    );
}

#[test]
fn a_drag_is_not_a_tap() {
    let mut hand = Hand::new();
    hand.touch(1, Phase::Started, (50.0, 50.0), 0);
    hand.touch(1, Phase::Moved, (90.0, 50.0), at(0.05));
    assert_eq!(hand.touch(1, Phase::Ended, (90.0, 50.0), at(0.10)), None);
}

#[test]
fn a_third_tap_starts_over() {
    let mut hand = Hand::new();
    for (id, expected) in [(1, None), (2, Some(Action::Reframe)), (3, None), (4, Some(Action::Reframe))] {
        let start = at(0.1 * id as f32);
        hand.touch(id, Phase::Started, (50.0, 50.0), start);
        assert_eq!(hand.touch(id, Phase::Ended, (50.0, 50.0), start + 1_000), expected);
    }
}

#[test]
fn what_is_left_of_a_pinch_does_not_steer() {
    let mut hand = Hand::new();
    hand.touch(1, Phase::Started, (100.0, 300.0), 0);
    hand.touch(2, Phase::Started, (200.0, 300.0), 0);
    hand.touch(1, Phase::Ended, (100.0, 300.0), at(0.1));
    assert_eq!(hand.touch(2, Phase::Moved, (240.0, 300.0), at(0.2)), None);
    assert_eq!(hand.fly(), None);
}

#[test]
fn trembling_fingers_change_nothing() {
    let mut hand = Hand::new();
    hand.touch(1, Phase::Started, (100.0, 300.0), 0);
    hand.touch(2, Phase::Started, (200.0, 300.0), 0);
    assert_eq!(hand.touch(2, Phase::Moved, (201.0, 300.0), at(0.05)), None);
    // Within the deadzone the pair does not fly either.
    hand.touch(1, Phase::Moved, (100.0, 310.0), at(0.06));
    hand.touch(2, Phase::Moved, (201.0, 310.0), at(0.07));
    assert_eq!(hand.fly(), None);
}

#[test]
fn forgotten_fingers_do_nothing() {
    let mut hand = Hand::new();
    hand.touch(1, Phase::Started, (100.0, 300.0), 0);
    assert!(hand.touches.active());
    hand.touches.clear();
    assert!(!hand.touches.active());
    assert_eq!(hand.touch(1, Phase::Moved, (140.0, 300.0), at(0.05)), None);
    assert_eq!(hand.touch(1, Phase::Ended, (140.0, 300.0), at(0.06)), None);
}

#[test]
fn the_taps_are_timed_to_single_precision() {
    for held in [249_999_999u64, 250_000_000, 250_000_008, 250_000_009, 250_000_016, 251_000_000] {
        let mut hand = Hand::new();
        hand.touch(1, Phase::Started, (50.0, 50.0), 0);
        hand.touch(1, Phase::Ended, (50.0, 50.0), held);
        // If that was a tap, a quick second one makes a double tap.
        hand.touch(2, Phase::Started, (50.0, 50.0), held + 1_000);
        let second = hand.touch(2, Phase::Ended, (50.0, 50.0), held + 2_000);
        let tapped = Duration::from_nanos(held).as_secs_f32() <= 0.25;
        assert_eq!(second == Some(Action::Reframe), tapped, "held for {held} ns");
    }
    for gap in [299_999_999u64, 300_000_000, 300_000_016, 300_000_017, 300_000_032, 301_000_000] {
        let mut hand = Hand::new();
        hand.touch(1, Phase::Started, (50.0, 50.0), 0);
        hand.touch(1, Phase::Ended, (50.0, 50.0), 1_000);
        hand.touch(2, Phase::Started, (50.0, 50.0), gap);
        let second = hand.touch(2, Phase::Ended, (50.0, 50.0), 1_000 + gap);
        let doubled = Duration::from_nanos(gap).as_secs_f32() <= 0.3;
        assert_eq!(second == Some(Action::Reframe), doubled, "lifted {gap} ns apart");
    }
}
