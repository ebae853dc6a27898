//! The engine's frame bookkeeping: the handle through which scripts reach
//! the engine, the time spent in each part of a frame, and the decisions
//! the frame update makes from the input.
use vstd::prelude::*;

use std::time::Duration;

use crate::event_manager::Keycode;
use crate::input_manager::{is_down, InputManager};
use crate::input_manager::KeyState;

verus! {

/// The handle through which the running engine is reached.
pub struct EngineHandle {}

impl EngineHandle {
    /// A handle to the running engine.
    pub fn generate() -> (res: EngineHandle)
        ensures
            res == (EngineHandle {}),
    {
        EngineHandle {}
    }
}

/// How long each part of the last frame took.
#[derive(Debug, Default)]
pub struct Timers {
    pub node_update_time: Duration,
    pub node_event_time: Duration,
    pub node_render_time: Duration,
    pub physics_engine_time: Duration,
    pub physics_engine_physics_time: Duration,
    pub physics_engine_conv_time: Duration,
    pub physics_engine_event_time: Duration,
    pub io_event_time: Duration,
    pub frame_update_time: Duration,
    pub frame_render_time: Duration,
}

/// Whether the debug outlines of colliders show after a frame's input:
/// pressing Z while both Left Control and Left Shift are held switches
/// them on or off.
pub open spec fn spec_show_colliders(input: &InputManager, show: bool) -> bool {
    if is_down(input.state(Keycode::LeftControl)) && is_down(input.state(Keycode::LeftShift))
        && input.state(Keycode::Z) == KeyState::JustPressed {
        !show
    } else {
        show
    }
}

/// Whether the debug outlines of colliders show after a frame's input,
/// given whether they showed before it.
pub fn show_colliders_after(input: &InputManager, show: bool) -> (res: bool)
    requires
        input.wf(),
    ensures
        res == spec_show_colliders(input, show),
{
    if input.is_key_down(Keycode::LeftControl) && input.is_key_down(Keycode::LeftShift)
        && input.is_key_just_pressed(Keycode::Z) {
        !show
    } else {
        show
    }
}

/// The collider outlines switch on Ctrl+Shift+Z alone: they switch
/// exactly when Left Control and Left Shift are both held (just pressed
/// or down) and Z was just pressed.  With either modifier up or just
/// released, or Z in any other state, they stay as they were; and the
/// same input switches them back.
pub proof fn colliders_toggle_on_ctrl_shift_z(input: &InputManager, show: bool)
    ensures
        input.state(Keycode::LeftControl) == KeyState::Up || input.state(Keycode::LeftControl)
            == KeyState::JustReleased ==> spec_show_colliders(input, show) == show,
        input.state(Keycode::LeftShift) == KeyState::Up || input.state(Keycode::LeftShift)
            == KeyState::JustReleased ==> spec_show_colliders(input, show) == show,
        input.state(Keycode::Z) != KeyState::JustPressed ==> spec_show_colliders(input, show) == show,
        (input.state(Keycode::LeftControl) == KeyState::JustPressed || input.state(Keycode::LeftControl)
            == KeyState::Down) && (input.state(Keycode::LeftShift) == KeyState::JustPressed
            || input.state(Keycode::LeftShift) == KeyState::Down) && input.state(Keycode::Z)
            == KeyState::JustPressed ==> spec_show_colliders(input, show) == !show,
        spec_show_colliders(input, spec_show_colliders(input, show)) == show,
{
}

/// How many fixed physics steps of `step` ticks fit in `elapsed` ticks
/// since the last step, and the ticks left over: the step count is the
/// greatest whole number of steps, and the rest is less than one step.
pub fn physics_steps(elapsed: u64, step: u64) -> (res: (u64, u64))
    requires
        step > 0,
    ensures
        res.0 * step + res.1 == elapsed,
        res.1 < step,
{
    let steps = elapsed / step;
    let rest = elapsed % step;
    assert(steps * step + rest == elapsed) by (nonlinear_arith)
        requires
            step > 0,
            steps == elapsed / step,
            rest == elapsed % step,
    ;
    (steps, rest)
}

/// When the last physics step happened, once `steps` steps were taken at
/// `now` with `rest` ticks left over: `rest` ticks before `now`; unchanged
/// when no step was taken.
pub fn last_physics_tick(now: u64, last_tick: u64, steps: u64, rest: u64) -> (res: u64)
    requires
        steps > 0 ==> rest <= now,
    ensures
        res == if steps > 0 {
            now - rest
        } else {
            last_tick as int
        },
{
    if steps > 0 {
        now - rest
    } else {
        last_tick
    }
}

} // verus!
