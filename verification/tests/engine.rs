use butter::engine::{last_physics_tick, physics_steps, show_colliders_after, EngineHandle, Timers};
use butter::event_manager::{Event, Keycode};
use butter::input_manager::InputManager;
use butter::{clamp_to_i32, escape_nul};

#[test]
fn collider_outlines_switch_on_ctrl_shift_z() {
    let mut im = InputManager::new();
    assert!(!show_colliders_after(&im, false));
    im.process(&[
        Event::KeyDown(Keycode::LeftControl, false),
        Event::KeyDown(Keycode::LeftShift, false),
    ]);
    assert!(!show_colliders_after(&im, false));
    im.process(&[Event::KeyDown(Keycode::Z, false)]);
    assert!(show_colliders_after(&im, false));
    assert!(!show_colliders_after(&im, true));
    im.process(&[]);
    assert!(show_colliders_after(&im, true));
}

#[test]
fn z_alone_does_not_switch() {
    let mut im = InputManager::new();
    im.process(&[Event::KeyDown(Keycode::LeftControl, false), Event::KeyDown(Keycode::Z, false)]);
    assert!(!show_colliders_after(&im, false));
}

#[test]
fn handles_and_timers() {
    let _h = EngineHandle::generate();
    let t = Timers::default();
    assert_eq!(t.frame_update_time.as_micros(), 0);
}

#[test]
fn sizes_are_clamped_for_the_back_end() {
    assert_eq!(clamp_to_i32("width", 800), 800);
    assert_eq!(clamp_to_i32("width", i32::MAX as usize), i32::MAX);
    assert_eq!(clamp_to_i32("width", i32::MAX as usize + 1), i32::MAX);
    assert_eq!(clamp_to_i32("width", usize::MAX), i32::MAX);
}

#[test]
fn nul_characters_are_escaped() {
    assert_eq!(escape_nul("title"), "title");
    assert_eq!(escape_nul("a\0b"), "a\\0b");
    assert_eq!(escape_nul("\0\0"), "\\0\\0");
    assert_eq!(escape_nul(""), "");
    assert!(!escape_nul("x\0y\0").contains('\0'));
}

#[test]
fn fixed_physics_steps() {
    assert_eq!(physics_steps(0, 10), (0, 0));
    assert_eq!(physics_steps(9, 10), (0, 9));
    assert_eq!(physics_steps(10, 10), (1, 0));
    assert_eq!(physics_steps(35, 10), (3, 5));
    assert_eq!(physics_steps(u64::MAX, 1), (u64::MAX, 0));
    assert_eq!(last_physics_tick(100, 60, 3, 5), 95);
    assert_eq!(last_physics_tick(100, 60, 0, 40), 60);
}
