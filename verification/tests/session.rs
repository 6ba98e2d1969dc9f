use plant::category::{Classification, Mode};
use plant::controls::{
    brightness_step, flying_speed, shell_gain, stops_at_panel, view_key, Button, Event, GhostParams,
    Key, Platform,
};
use plant::panel::Response;
use plant::scene::{Instance, Scene};
use plant::session::{frame_step, SelfTest, Session, Step};
use plant::single::Single;
use plant::touch::Flight;
use plant::webinput::{tell, translate_button, Pointer, Told};
use plant::{apply_view_key, is_release, Input, ViewKey};

fn single(x: f32) -> Single {
    Single { bits: x.to_bits() }
}

fn number(x: Single) -> f32 {
    f32::from_bits(x.bits)
}

fn classification() -> Classification {
    let scene = Scene {
        instances: vec![Instance {
            first_index: 0,
            index_count: 3,
            base_vertex: 0,
            material: 0,
            name: String::new(),
            transform: [single(0.0); 12],
            aabb_min: [single(0.0); 3],
            aabb_max: [single(1.0); 3],
        }],
        materials: Vec::new(),
        vertices: Vec::new(),
        indices: Vec::new(),
        scene_min: [single(0.0); 3],
        scene_max: [single(1.0); 3],
        bake_hash: 0,
        byte_len: 0,
    };
    Classification::from_assignment(&scene, vec![0])
}

fn key(key: Key, pressed: bool) -> Event {
    Event::KeyboardInput { key: Some(key), pressed, repeat: false }
}

fn desktop() -> Session {
    let mut session = Session::new(Platform::Desktop, (1600, 900), false);
    session.on_panel(true);
    session
}

fn browser() -> Session {
    let mut session = Session::new(Platform::Browser, (1280, 720), false);
    session.on_panel(true);
    session
}

/// Hold a movement key, let the panel take focus, and the key-up is consumed
/// before the camera sees it, so the camera keeps flying with nothing holding
/// the key down. Releases must be exempt.
#[test]
fn releases_are_recognised_so_they_can_never_be_swallowed() {
    let press = Event::MouseInput { button: Button::Right, pressed: true };
    let release = Event::MouseInput { button: Button::Right, pressed: false };
    assert!(!is_release(&press));
    assert!(is_release(&release));
    // Anything that is not a press or release is neither.
    assert!(!is_release(&Event::RedrawRequested));
    assert!(stops_at_panel(Platform::Desktop, &press, true));
    assert!(!stops_at_panel(Platform::Desktop, &release, true));
}

#[test]
fn a_release_clears_the_key_even_if_the_panel_claims_it() {
    let mut session = desktop();
    assert_eq!(session.on_event(key(Key::W, true), false), Step::Nothing);
    assert!(session.input.forward);
    assert_eq!(session.on_event(key(Key::W, false), true), Step::Nothing);
    assert_eq!(session.input, Input::default());
    // A press that the panel claims goes no further.
    let _ = session.on_event(key(Key::W, true), true);
    assert_eq!(session.input, Input::default());
    // Unless the panel is hidden.
    assert_eq!(session.on_event(key(Key::H, true), false), Step::PanelShown(false));
    let _ = session.on_event(key(Key::W, true), true);
    assert!(session.input.forward);
}

#[test]
fn losing_focus_stops_the_camera() {
    let mut session = desktop();
    for held in [Key::W, Key::D, Key::Space, Key::ShiftLeft] {
        let _ = session.on_event(key(held, true), false);
    }
    let _ = session.on_event(Event::MouseInput { button: Button::Right, pressed: true }, false);
    assert!(session.input.looking);
    assert_eq!(session.on_event(Event::Focused(false), true), Step::Unfocused);
    assert_eq!(session.input, Input::default());
    assert_eq!(session.on_event(Event::Focused(true), false), Step::Nothing);
}

#[test]
fn opposite_keys_cancel() {
    let mut input = Input::default();
    assert!(input.press(Key::W, true));
    assert!(input.press(Key::A, true));
    assert!(input.press(Key::Q, true));
    assert_eq!(input.axes(), (1, -1, -1));
    assert!(input.press(Key::S, true));
    assert!(input.press(Key::E, true));
    assert_eq!(input.axes(), (0, -1, 0));
    assert!(!input.press(Key::F, true));
}

#[test]
fn sprinting_wins_over_creeping() {
    let mut input = Input::default();
    assert_eq!(number(input.boost()), 1.0);
    input.press(Key::ControlLeft, true);
    assert_eq!(number(input.boost()), 0.2);
    input.press(Key::ShiftRight, true);
    assert_eq!(number(input.boost()), 5.0);
}

#[test]
fn two_fingers_win_over_the_keys() {
    let mut session = browser();
    let _ = session.on_event(key(Key::S, true), false);
    let (forward, right, up, boost) = session.steering(None);
    assert_eq!([forward, right, up, boost].map(number), [-1.0, 0.0, 0.0, 1.0]);
    let fingers = Flight { forward: single(0.6), right: single(0.8), throttle: single(1.5) };
    let (forward, right, up, boost) = session.steering(Some(fingers));
    assert_eq!([forward, right, up, boost].map(number), [0.6, 0.8, 0.0, 1.5]);
}

#[test]
fn the_digits_cycle_the_first_ten_categories() {
    assert_eq!(view_key(Key::Digit(1)), Some(ViewKey::Category(0)));
    assert_eq!(view_key(Key::Digit(9)), Some(ViewKey::Category(8)));
    assert_eq!(view_key(Key::Digit(0)), Some(ViewKey::Category(9)));
    assert_eq!(view_key(Key::BracketRight), Some(ViewKey::Brighter));
    assert_eq!(view_key(Key::W), None);
    assert_eq!(view_key(Key::F12), None);
}

#[test]
fn keys_do_what_they_announce() {
    let mut classification = classification();
    let mut params = GhostParams::default();
    let before = params;
    let effect = apply_view_key(ViewKey::Category(0), &mut classification, &mut params, single(0.0), "0.00");
    assert_eq!(effect.announce.as_deref(), Some("Pipework G"));
    assert!(effect.dirty && !effect.toggle_labels && !effect.toggle_keys);
    assert_eq!(classification.categories[0].mode, Mode::Ghosted);
    assert_eq!(params, before);

    let effect = apply_view_key(ViewKey::Category(40), &mut classification, &mut params, single(0.0), "0.00");
    assert!(effect.announce.is_none() && !effect.dirty);

    for (key, text) in [
        (ViewKey::PresetPlant, "preset: process plant solid, structure ghosted"),
        (ViewKey::PresetPipes, "preset: pipework and instrumentation only"),
        (ViewKey::PresetEverything, "preset: whole map"),
        (ViewKey::GhostHidden, "ghosted everything that was hidden"),
        (ViewKey::HideGhosted, "hid everything that was ghosted"),
    ] {
        let effect = apply_view_key(key, &mut classification, &mut params, single(0.0), "0.00");
        assert_eq!(effect.announce.as_deref(), Some(text));
        assert!(effect.dirty);
    }
    assert!(apply_view_key(ViewKey::ToggleLabels, &mut classification, &mut params, single(0.0), "0.00").toggle_labels);
    assert!(apply_view_key(ViewKey::ToggleKeys, &mut classification, &mut params, single(0.0), "0.00").toggle_keys);
}

#[test]
fn three_presses_of_a_digit_change_nothing() {
    let mut classification = classification();
    let mut params = GhostParams::default();
    for expected in [Mode::Ghosted, Mode::Hidden, Mode::Solid] {
        let _ = apply_view_key(ViewKey::Category(0), &mut classification, &mut params, single(0.0), "0.00");
        assert_eq!(classification.categories[0].mode, expected);
    }
}

#[test]
fn brightness_stays_within_its_limits() {
    let mut classification = classification();
    let mut params = GhostParams::default();
    assert_eq!([params.gain, params.fresnel, params.fade].map(number), [0.6, 2.6, 200.0]);
    let step = brightness_step(ViewKey::Brighter).expect("a step");
    assert_eq!(number(step), 1.25);
    assert_eq!(brightness_step(ViewKey::Dimmer).map(number), Some(0.8));
    assert_eq!(brightness_step(ViewKey::GhostHidden), None);
    for (scaled, expected, text) in [
        (0.75, 0.75, "ghost brightness 0.75"),
        (5.0, 4.0, "ghost brightness 4.00"),
        (0.001, 0.02, "ghost brightness 0.02"),
    ] {
        for key in [ViewKey::Brighter, ViewKey::Dimmer] {
            let scaled = single(scaled);
            let shown = format!("{:.2}", number(shell_gain(scaled)));
            let effect = apply_view_key(key, &mut classification, &mut params, scaled, &shown);
            assert_eq!(effect.announce.as_deref(), Some(text));
            assert_eq!(number(params.gain), expected);
            assert!(!effect.dirty);
        }
    }
}

#[test]
fn speed_stays_within_its_limits() {
    assert_eq!(number(flying_speed(single(12.0))), 12.0);
    assert_eq!(number(flying_speed(single(0.1))), 0.2);
    assert_eq!(number(flying_speed(single(1e6))), 400.0);
    assert_eq!(number(frame_step(single(0.02))), 0.02);
    assert_eq!(number(frame_step(single(3.0))), 0.1);
}

#[test]
fn events_ask_for_their_steps() {
    let mut session = desktop();
    assert_eq!(session.on_event(Event::CloseRequested, true), Step::Quit);
    assert_eq!(session.on_event(Event::Resized(0, 5), true), Step::Resize(0, 5));
    assert_eq!(session.viewport, (0, 5));
    assert_eq!(session.on_event(Event::CursorMoved, false), Step::Hover);
    assert_eq!(session.on_event(Event::CursorMoved, true), Step::Nothing);
    assert_eq!(
        session.on_event(Event::MouseInput { button: Button::Left, pressed: true }, false),
        Step::Select
    );
    assert_eq!(
        session.on_event(Event::MouseInput { button: Button::Left, pressed: false }, false),
        Step::Nothing
    );
    assert_eq!(
        session.on_event(Event::MouseInput { button: Button::Right, pressed: true }, false),
        Step::ShowCursor(false)
    );
    assert_eq!(session.on_event(Event::MouseWheel, false), Step::Scroll);
    assert_eq!(session.on_event(key(Key::F, true), false), Step::Frame);
    assert_eq!(session.on_event(key(Key::F12, true), false), Step::Capture);
    assert_eq!(session.on_event(key(Key::P, true), false), Step::View(ViewKey::PresetPlant));
    assert_eq!(session.on_event(key(Key::P, false), false), Step::Nothing);
    let repeated = Event::KeyboardInput { key: Some(Key::P), pressed: true, repeat: true };
    assert_eq!(session.on_event(repeated, false), Step::Nothing);
    let repeated = Event::KeyboardInput { key: Some(Key::Escape), pressed: true, repeat: true };
    assert_eq!(session.on_event(repeated, false), Step::Quit);
    let unknown = Event::KeyboardInput { key: None, pressed: true, repeat: false };
    assert_eq!(session.on_event(unknown, false), Step::Nothing);
    assert_eq!(session.on_event(Event::Touch, false), Step::Nothing);
    assert_eq!(session.on_event(Event::RedrawRequested, true), Step::Draw);
}

#[test]
fn the_browser_differs_where_it_must() {
    let mut session = browser();
    assert_eq!(session.on_event(Event::Resized(0, 5), false), Step::Resize(1, 5));
    assert_eq!(session.on_event(key(Key::F12, true), false), Step::Nothing);
    assert_eq!(session.on_event(key(Key::Escape, true), false), Step::Nothing);
    assert_eq!(session.on_event(Event::Touch, false), Step::Touch);
    assert_eq!(
        session.on_event(Event::MouseInput { button: Button::Right, pressed: true }, false),
        Step::Nothing
    );
    assert!(session.input.looking);
    assert_eq!(session.on_event(Event::CloseRequested, true), Step::Nothing);
    assert_eq!(session.on_canvas(0, 800), (1, 800));
    assert_eq!(session.viewport, (1, 800));

    let phone = Session::new(Platform::Browser, (390, 844), true);
    assert!(!phone.show_labels && !phone.show_keys);
}

#[test]
fn view_keys_reach_the_session() {
    let mut session = desktop();
    let mut classification = classification();
    let mut params = GhostParams::default();
    assert!(session.take_dirty());
    assert!(!session.take_dirty());
    let effect =
        session.on_view_key(ViewKey::ToggleLabels, &mut classification, &mut params, single(0.0), "0.00");
    assert!(effect.toggle_labels && !session.show_labels && session.show_keys && !session.dirty);
    let _ = session.on_view_key(ViewKey::ToggleKeys, &mut classification, &mut params, single(0.0), "0.00");
    assert!(!session.show_keys && !session.legend_shown());
    let _ = session.on_view_key(ViewKey::GhostHidden, &mut classification, &mut params, single(0.0), "0.00");
    assert!(session.dirty);
}

#[test]
fn what_was_named_stays_named() {
    let mut session = desktop();
    let identified = vec![Some(4), None];
    session.on_hover(Some(0), &identified);
    assert_eq!((session.hovered, session.sticky), (Some(0), Some(4)));
    session.on_hover(Some(1), &identified);
    assert_eq!((session.hovered, session.sticky), (Some(1), Some(4)));
    session.on_hover(None, &identified);
    assert_eq!((session.hovered, session.sticky), (None, Some(4)));
    session.on_hover(Some(0), &identified);
    let _ = session.on_event(Event::MouseInput { button: Button::Right, pressed: true }, false);
    session.on_hover(Some(0), &identified);
    assert_eq!(session.hovered, None, "no tooltip while looking around");
}

#[test]
fn a_click_selects_what_it_hits() {
    let mut session = desktop();
    let _ = session.take_dirty();
    session.on_select(false, None);
    assert!(!session.dirty);
    session.on_select(true, Some(3));
    assert_eq!(session.selected, Some(3));
    assert!(session.take_dirty());
    session.on_select(true, None);
    assert_eq!(session.selected, None);
    assert!(session.dirty);

    let mut session = browser();
    session.on_select(true, Some(3));
    session.on_select(false, None);
    assert_eq!(session.selected, None);
}

#[test]
fn the_panel_is_answered() {
    let mut session = desktop();
    let _ = session.take_dirty();
    assert!(!session.on_response(&Response::default()));
    assert!(!session.dirty);
    let response = Response { dirty: true, frame_visible: true, ..Response::default() };
    assert!(session.on_response(&response));
    assert!(session.dirty);
}

#[test]
fn the_frame_rate_is_worked_out_twice_a_second() {
    let mut session = desktop();
    assert_eq!(session.on_drawn(single(0.1)), None);
    assert_eq!(session.on_drawn(single(0.49)), None);
    assert_eq!(session.on_drawn(single(0.5)), Some(3));
    assert_eq!(session.on_drawn(single(0.0)), None);
    assert_eq!((session.frames, session.drawn), (1, 4));
}

#[test]
fn a_self_test_parks_captures_and_quits() {
    let mut session = desktop();
    let mut seen = Vec::new();
    for _ in 0..33 {
        let _ = session.on_drawn(single(0.0));
        match session.self_test() {
            SelfTest::Wait => {}
            step => seen.push((session.drawn, step)),
        }
    }
    assert_eq!(
        seen,
        vec![
            (25, SelfTest::ParkCursor),
            (30, SelfTest::Capture),
            (32, SelfTest::Quit),
            (33, SelfTest::Quit),
        ]
    );
}

#[test]
fn the_panel_hears_of_the_pointer_only() {
    assert_eq!(tell(Event::CursorMoved, true), (Told::Moved, true));
    assert_eq!(tell(Event::CursorMoved, false), (Told::Moved, false));
    assert_eq!(tell(Event::CursorLeft, true), (Told::Gone, false));
    assert_eq!(
        tell(Event::MouseInput { button: Button::Left, pressed: true }, true),
        (Told::Pressed(Pointer::Primary, true), true)
    );
    assert_eq!(
        tell(Event::MouseInput { button: Button::Other, pressed: true }, true),
        (Told::Nothing, false)
    );
    assert_eq!(tell(Event::MouseWheel, true), (Told::Wheel, true));
    assert_eq!(tell(Event::ModifiersChanged, true), (Told::Modifiers, false));
    assert_eq!(tell(key(Key::W, true), true), (Told::Nothing, false));
    assert_eq!(translate_button(Button::Right), Some(Pointer::Secondary));
    assert_eq!(translate_button(Button::Middle), Some(Pointer::Middle));
}

#[test]
fn hiding_the_panel_keeps_the_names() {
    let mut session = desktop();
    let before = session;
    assert!(session.legend_shown());
    assert_eq!(session.on_event(key(Key::H, true), false), Step::PanelShown(false));
    assert!(session.show_labels);
    assert!(!session.legend_shown());
    assert_eq!(session.on_event(key(Key::H, true), false), Step::PanelShown(true));
    assert_eq!(session, before);
}
