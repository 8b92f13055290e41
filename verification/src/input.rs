//! The intent layer: semantic events fed into the core, and the
//! translation of already-polled device state into those events.
//!
//! Raw device polling is an external collaborator's job; it hands this
//! module plain values (which direction keys are held, which buttons
//! were pressed, how far the wheel turned) and receives the tick's
//! intent events back.

use vstd::prelude::*;

use crate::math::{tdiv, div_trunc, V2};

verus! {

/// A movement intent: walk in a direction, or dash along it.
#[derive(Clone, Copy, Debug, PartialEq, Eq, Structural)]
pub enum PlayerMovementEvent {
    Move(V2),
    Dash(V2),
}

/// An attack intent.
#[derive(Clone, Copy, Debug, PartialEq, Eq, Structural)]
pub enum PlayerAttackEvent {
    PrimaryFire,
}

/// A camera intent: change the zoom scale by the carried delta.
#[derive(Clone, Copy, Debug, PartialEq, Eq, Structural)]
pub enum CameraEvent {
    Zoom(i64),
}

/// A mouse button, as the input collaborator reports it.
#[derive(Clone, Copy, Debug, PartialEq, Eq, Structural)]
pub enum MouseButton {
    Left,
    Right,
    Middle,
}

/// Whether a reported button event was a press or a release.
#[derive(Clone, Copy, Debug, PartialEq, Eq, Structural)]
pub enum ButtonState {
    Pressed,
    Released,
}

/// One reported mouse-button transition.
#[derive(Clone, Copy, Debug, PartialEq, Eq, Structural)]
pub struct MouseButtonInput {
    pub button: MouseButton,
    pub state: ButtonState,
}

/// The unit a mouse-wheel event is measured in.
#[derive(Clone, Copy, Debug, PartialEq, Eq, Structural)]
pub enum MouseScrollUnit {
    Line,
    Pixel,
}

/// One reported mouse-wheel turn: `y` milli-steps in the given unit.
#[derive(Clone, Copy, Debug, PartialEq, Eq, Structural)]
pub struct MouseWheel {
    pub unit: MouseScrollUnit,
    pub y: i64,
}

/// The unit-or-zero direction spanned by two opposite key pairs:
/// right minus left on the x axis, up minus down on the y axis.
pub open spec fn key_direction(left: bool, right: bool, up: bool, down: bool) -> V2 {
    V2 {
        x: ((if right { 1000int } else { 0int }) - (if left { 1000int } else { 0int })) as i64,
        y: ((if up { 1000int } else { 0int }) - (if down { 1000int } else { 0int })) as i64,
    }
}

/// Turns the held direction keys into this tick's movement intents:
/// always one `Move` with the combined direction, plus one `Dash` with
/// the same direction while the dash key is held.
pub fn keyboard_input(left: bool, right: bool, up: bool, down: bool, dash: bool) -> (events: Vec<
    PlayerMovementEvent,
>)
    ensures
        events@.len() == (if dash {
            2int
        } else {
            1int
        }),
        events@[0] == PlayerMovementEvent::Move(key_direction(left, right, up, down)),
        dash ==> events@[1] == PlayerMovementEvent::Dash(key_direction(left, right, up, down)),
{
    let x: i64 = (if right {
        1000
    } else {
        0
    }) - (if left {
        1000
    } else {
        0
    });
    let y: i64 = (if up {
        1000
    } else {
        0
    }) - (if down {
        1000
    } else {
        0
    });
    let direction = V2 { x, y };
    let mut events: Vec<PlayerMovementEvent> = Vec::new();
    events.push(PlayerMovementEvent::Move(direction));
    if dash {
        events.push(PlayerMovementEvent::Dash(direction));
    }
    events
}

/// How many of the reported button transitions fire the primary attack:
/// the presses (not releases) of the left button.
pub open spec fn count_primary_fire(presses: Seq<MouseButtonInput>) -> int
    decreases presses.len(),
{
    if presses.len() == 0 {
        0
    } else {
        count_primary_fire(presses.drop_last()) + (if presses.last().button == MouseButton::Left
            && presses.last().state == ButtonState::Pressed {
            1int
        } else {
            0int
        })
    }
}

/// Turns the tick's mouse-button transitions into attack intents: one
/// `PrimaryFire` per left-button press, in order.
pub fn mouse_input(presses: &Vec<MouseButtonInput>) -> (events: Vec<PlayerAttackEvent>)
    ensures
        events@.len() == count_primary_fire(presses@),
        forall|i: int|
            0 <= i < events@.len() ==> events@[i] == PlayerAttackEvent::PrimaryFire,
{
    let mut events: Vec<PlayerAttackEvent> = Vec::new();
    let mut i: usize = 0;
    while i < presses.len()
        invariant
            0 <= i <= presses@.len(),
            events@.len() == count_primary_fire(presses@.take(i as int)),
            forall|j: int| 0 <= j < events@.len() ==> events@[j] == PlayerAttackEvent::PrimaryFire,
        decreases presses@.len() - i,
    {
        let p = presses[i];
        proof {
            assert(presses@.take(i + 1int).drop_last() =~= presses@.take(i as int));
            assert(presses@.take(i + 1int).last() == presses@[i as int]);
        }
        match (p.button, p.state) {
            (MouseButton::Left, ButtonState::Pressed) => {
                events.push(PlayerAttackEvent::PrimaryFire);
            },
            _ => {},
        }
        i = i + 1;
    }
    proof {
        assert(presses@.take(presses@.len() as int) =~= presses@);
    }
    events
}

/// The zoom delta one wheel event carries: line units count whole, pixel
/// units are divided by one hundred.
pub open spec fn wheel_zoom_delta(w: MouseWheel) -> int {
    match w.unit {
        MouseScrollUnit::Line => w.y as int,
        MouseScrollUnit::Pixel => tdiv(w.y as int, 100),
    }
}

/// Turns the tick's mouse-wheel turns into camera zoom intents, one per
/// wheel event, in order.
pub fn mouse_wheel_input(wheel: &Vec<MouseWheel>) -> (events: Vec<CameraEvent>)
    requires
        forall|i: int| 0 <= i < wheel@.len() ==> wheel@[i].y > i64::MIN,
    ensures
        events@.len() == wheel@.len(),
        forall|i: int|
            0 <= i < wheel@.len() ==> events@[i] == CameraEvent::Zoom(
                wheel_zoom_delta(wheel@[i]) as i64,
            ),
{
    let mut events: Vec<CameraEvent> = Vec::new();
    let mut i: usize = 0;
    while i < wheel.len()
        invariant
            0 <= i <= wheel@.len(),
            events@.len() == i,
            forall|j: int| 0 <= j < wheel@.len() ==> wheel@[j].y > i64::MIN,
            forall|j: int|
                0 <= j < i ==> events@[j] == CameraEvent::Zoom(wheel_zoom_delta(wheel@[j]) as i64),
        decreases wheel@.len() - i,
    {
        let w = wheel[i];
        let delta: i64 = match w.unit {
            MouseScrollUnit::Line => w.y,
            MouseScrollUnit::Pixel => div_trunc(w.y, 100),
        };
        events.push(CameraEvent::Zoom(delta));
        i = i + 1;
    }
    events
}

} // verus!
