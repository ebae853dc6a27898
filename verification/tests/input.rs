use butter::event_manager::{Event, EventManager, Keycode, MouseButton, RawEvent, Vec2Bits};
use butter::input_manager::InputManager;

#[test]
fn keys_start_up() {
    let im = InputManager::new();
    assert!(im.is_key_up(Keycode::A));
    assert!(!im.is_key_down(Keycode::A));
    assert!(!im.is_key_just_pressed(Keycode::A));
    assert!(!im.is_key_just_released(Keycode::A));
}

#[test]
fn press_then_hold_then_release() {
    let mut im = InputManager::new();
    im.process(&[Event::KeyDown(Keycode::A, false)]);
    assert!(im.is_key_down(Keycode::A));
    assert!(im.is_key_just_pressed(Keycode::A));
    assert!(!im.is_key_up(Keycode::A));

    im.process(&[]);
    assert!(im.is_key_down(Keycode::A));
    assert!(!im.is_key_just_pressed(Keycode::A));

    im.process(&[Event::KeyUp(Keycode::A, false)]);
    assert!(im.is_key_up(Keycode::A));
    assert!(im.is_key_just_released(Keycode::A));

    im.process(&[]);
    assert!(im.is_key_up(Keycode::A));
    assert!(!im.is_key_just_released(Keycode::A));
}

#[test]
fn repeated_key_events_change_nothing() {
    let mut im = InputManager::new();
    im.process(&[Event::KeyDown(Keycode::B, true)]);
    assert!(im.is_key_up(Keycode::B));
    im.process(&[Event::KeyDown(Keycode::B, false)]);
    im.process(&[Event::KeyDown(Keycode::B, true)]);
    assert!(im.is_key_down(Keycode::B));
    assert!(!im.is_key_just_pressed(Keycode::B));
}

#[test]
fn last_event_of_a_frame_wins() {
    let mut im = InputManager::new();
    im.process(&[Event::KeyDown(Keycode::C, false), Event::KeyUp(Keycode::C, false)]);
    assert!(im.is_key_just_released(Keycode::C));
    im.process(&[Event::KeyUp(Keycode::D, false), Event::KeyDown(Keycode::D, false)]);
    assert!(im.is_key_just_pressed(Keycode::D));
}

#[test]
fn untouched_keys_keep_their_state() {
    let mut im = InputManager::new();
    im.process(&[Event::KeyDown(Keycode::W, false)]);
    im.process(&[Event::KeyDown(Keycode::S, false), Event::MouseEnter, Event::Character('x')]);
    assert!(im.is_key_down(Keycode::W));
    assert!(!im.is_key_just_pressed(Keycode::W));
    assert!(im.is_key_just_pressed(Keycode::S));
    assert!(im.is_key_up(Keycode::Q));
}

#[test]
fn axis_direction_of_two_keys() {
    let mut im = InputManager::new();
    assert_eq!(im.axis_direction(Keycode::D, Keycode::A), 0);
    im.process(&[Event::KeyDown(Keycode::D, false)]);
    assert_eq!(im.axis_direction(Keycode::D, Keycode::A), 1);
    im.process(&[Event::KeyDown(Keycode::A, false)]);
    assert_eq!(im.axis_direction(Keycode::D, Keycode::A), 0);
    im.process(&[Event::KeyUp(Keycode::D, false)]);
    assert_eq!(im.axis_direction(Keycode::D, Keycode::A), -1);
}

#[test]
fn key_names_ignore_case() {
    assert_eq!(Keycode::from_str("space"), Some(Keycode::Space));
    assert_eq!(Keycode::from_str("SPACE"), Some(Keycode::Space));
    assert_eq!(Keycode::from_str("LeFtShIfT"), Some(Keycode::LeftShift));
    assert_eq!(Keycode::from_str("a"), Some(Keycode::A));
    assert_eq!(Keycode::from_str("num7"), Some(Keycode::Num7));
    assert_eq!(Keycode::from_str("f12"), Some(Keycode::F12));
    assert_eq!(Keycode::from_str("KPENTER"), Some(Keycode::KpEnter));
}

#[test]
fn unknown_key_names() {
    assert_eq!(Keycode::from_str(""), None);
    assert_eq!(Keycode::from_str("invalid"), None);
    assert_eq!(Keycode::from_str("spacebar"), None);
    assert_eq!(Keycode::from_str(" space"), None);
    assert_eq!(Keycode::from_str("left_shift"), None);
}

#[test]
fn key_codes_read_back() {
    for k in [Keycode::Space, Keycode::A, Keycode::Z, Keycode::Escape, Keycode::F25, Keycode::Menu, Keycode::LeftControl] {
        assert_eq!(Keycode::from_code(k.code() as i32), k);
    }
    assert_eq!(Keycode::from_code(32), Keycode::Space);
    assert_eq!(Keycode::from_code(65), Keycode::A);
    assert_eq!(Keycode::from_code(0), Keycode::Invalid);
    assert_eq!(Keycode::from_code(33), Keycode::Invalid);
    assert_eq!(Keycode::from_code(-1), Keycode::Invalid);
    assert_eq!(Keycode::from_code(100000), Keycode::Invalid);
    assert_eq!(Keycode::Menu.code(), 348);
}

#[test]
fn mouse_buttons_from_codes() {
    assert_eq!(MouseButton::from_code(0), MouseButton::Left);
    assert_eq!(MouseButton::from_code(1), MouseButton::Right);
    assert_eq!(MouseButton::from_code(2), MouseButton::Middle);
    assert_eq!(MouseButton::from_code(256), MouseButton::Left);
}

#[test]
fn character_events_from_codes() {
    assert_eq!(Event::from_char_code(0x41), Some(Event::Character('A')));
    assert_eq!(Event::from_char_code(0x1F600), Some(Event::Character('\u{1F600}')));
    assert_eq!(Event::from_char_code(0xD800), None);
    assert_eq!(Event::from_char_code(0xDFFF), None);
    assert_eq!(Event::from_char_code(0x110000), None);
}

#[test]
fn event_queue_keeps_order_until_cleared() {
    let mut em = EventManager::new();
    assert!(em.event_queue().is_empty());
    let moved = Event::MouseMove { abs: Vec2Bits { x: 1.5f32.to_bits(), y: 2.0f32.to_bits() }, delta: Vec2Bits { x: 0, y: 0 } };
    em.push_event(Event::Focused);
    em.push_event(moved);
    em.push_event(Event::MouseDown(MouseButton::Right));
    assert_eq!(em.event_queue(), &[Event::Focused, moved, Event::MouseDown(MouseButton::Right)]);
    em.clear_queue();
    assert!(em.event_queue().is_empty());
}

#[test]
fn raw_window_events_are_translated() {
    assert_eq!(Event::from_raw(RawEvent::Invalid), None);
    assert_eq!(
        Event::from_raw(RawEvent::KeyDown { key_code: 65, repeat: true }),
        Some(Event::KeyDown(Keycode::A, true))
    );
    assert_eq!(
        Event::from_raw(RawEvent::KeyUp { key_code: 9999, repeat: false }),
        Some(Event::KeyUp(Keycode::Invalid, false))
    );
    assert_eq!(Event::from_raw(RawEvent::Char { char_code: 0x61 }), Some(Event::Character('a')));
    assert_eq!(Event::from_raw(RawEvent::Char { char_code: 0xD801 }), None);
    assert_eq!(Event::from_raw(RawEvent::MouseUp { button: 2 }), Some(Event::MouseUp(MouseButton::Middle)));
    let v = Vec2Bits { x: 3.0f32.to_bits(), y: (-1.0f32).to_bits() };
    assert_eq!(Event::from_raw(RawEvent::MouseScroll(v)), Some(Event::MouseScroll(v)));
    assert_eq!(Event::from_raw(RawEvent::Iconified), Some(Event::Minimised));
    assert_eq!(Event::from_raw(RawEvent::QuitRequested), Some(Event::QuitRequested));
}

#[test]
fn every_key_reads_back_from_its_name_in_any_case() {
    let mut seen = 0;
    for code in -1..=400 {
        let k = Keycode::from_code(code);
        if k == Keycode::Invalid {
            continue;
        }
        seen += 1;
        let name = format!("{:?}", k);
        assert_eq!(Keycode::from_str(&name), Some(k), "{name}");
        assert_eq!(Keycode::from_str(&name.to_lowercase()), Some(k), "{name}");
        assert_eq!(Keycode::from_str(&name.to_uppercase()), Some(k), "{name}");
    }
    assert_eq!(seen, 120);
}
