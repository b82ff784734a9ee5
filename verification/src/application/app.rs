//! The viewer's reaction to window input: which camera moves, redraws and exits an input
//! event calls for, and which mouse-drag modes it switches.
use vstd::prelude::*;
use crate::rendering::camera::Direction;

verus! {

/// The keys the viewer reacts to; every other key is `Other`.
#[derive(Debug, Clone, Copy, PartialEq, Eq, Structural)]
pub enum Key {
    Q,
    Escape,
    ControlLeft,
    W,
    S,
    D,
    A,
    Z,
    X,
    Other,
}

/// The mouse buttons the viewer reacts to; every other button is `Other`.
#[derive(Debug, Clone, Copy, PartialEq, Eq, Structural)]
pub enum MouseButton {
    Left,
    Middle,
    Other,
}

/// The sign of a difference of two coordinates (a difference that is not a number is `Zero`).
#[derive(Debug, Clone, Copy, PartialEq, Eq, Structural)]
pub enum Sign {
    Negative,
    Zero,
    Positive,
}

/// A window event, reduced to what the viewer's decisions read.
#[derive(Debug, Clone, Copy, PartialEq, Eq, Structural)]
pub enum WindowInput {
    CloseRequested,
    Resized { width: u32, height: u32 },
    RedrawRequested,
    Keyboard { key: Key, pressed: bool },
    Mouse { button: MouseButton, pressed: bool },
    /// The cursor moved; `dx` and `dy` are the signs of the previous position minus the new one.
    CursorMoved { dx: Sign, dy: Sign },
    /// The wheel turned by whole lines; `up` when the vertical amount is positive.
    Wheel { up: bool },
    Other,
}

/// What the viewer does in answer to an event, in order.
#[derive(Debug, Clone, Copy, PartialEq, Eq, Structural)]
pub enum Action {
    /// Stop the event loop.
    Exit,
    /// Resize the drawing surface.
    Resize { width: u32, height: u32 },
    /// Move the camera; `rotate` turns it about its focus instead of shifting the focus too.
    Move { direction: Direction, rotate: bool },
    /// Step the camera towards its focus.
    ZoomIn,
    /// Step the camera away from its focus.
    ZoomOut,
    /// Recompute the camera data, upload it and draw a frame.
    Refresh,
}

/// The mouse-drag modes: `movements[0]` rotates (left button or left Ctrl held),
/// `movements[1]` pans (middle button held).
#[derive(Debug, Clone, Copy)]
pub struct Controls {
    pub movements: [bool; 3],
}

/// The move a movement key calls for, if it is one.
pub open spec fn key_direction(key: Key) -> Option<Direction> {
    match key {
        Key::W => Some(Direction::Forward),
        Key::S => Some(Direction::Backward),
        Key::D => Some(Direction::Right),
        Key::A => Some(Direction::Left),
        Key::Z => Some(Direction::Up),
        Key::X => Some(Direction::Down),
        _ => None,
    }
}

/// The moves a cursor movement calls for while dragging, horizontal first.
pub open spec fn drag_moves(dx: Sign, dy: Sign, rotate: bool) -> Seq<Action> {
    let h = match dx {
        Sign::Positive => seq![Action::Move { direction: Direction::Left, rotate }],
        Sign::Negative => seq![Action::Move { direction: Direction::Right, rotate }],
        Sign::Zero => Seq::empty(),
    };
    let v = match dy {
        Sign::Positive => seq![Action::Move { direction: Direction::Up, rotate }],
        Sign::Negative => seq![Action::Move { direction: Direction::Down, rotate }],
        Sign::Zero => Seq::empty(),
    };
    h + v + seq![Action::Refresh]
}

/// The drag modes after `input`.
pub open spec fn next_movements(m: Seq<bool>, input: WindowInput) -> Seq<bool> {
    match input {
        WindowInput::Mouse { button: MouseButton::Left, pressed } => m.update(0, pressed),
        WindowInput::Mouse { button: MouseButton::Middle, pressed } => m.update(1, pressed),
        WindowInput::Keyboard { key: Key::ControlLeft, pressed } => m.update(0, pressed),
        _ => m,
    }
}

/// The actions `input` calls for, given the drag modes `m` before it.
pub open spec fn actions_for(m: Seq<bool>, input: WindowInput) -> Seq<Action> {
    match input {
        WindowInput::CloseRequested => seq![Action::Exit],
        WindowInput::Resized { width, height } => seq![
            Action::Resize { width, height },
            Action::Refresh,
        ],
        WindowInput::Keyboard { key, pressed } => if pressed && (key == Key::Q || key == Key::Escape) {
            seq![Action::Exit]
        } else if let Some(direction) = key_direction(key) {
            seq![Action::Move { direction, rotate: m[0] }, Action::Refresh]
        } else {
            Seq::empty()
        },
        WindowInput::CursorMoved { dx, dy } => if m[0] || m[1] {
            drag_moves(dx, dy, m[0])
        } else {
            Seq::empty()
        },
        WindowInput::Wheel { up } => seq![if up { Action::ZoomIn } else { Action::ZoomOut }, Action::Refresh],
        _ => Seq::empty(),
    }
}

/// Decides what the viewer does about `event` and updates the drag modes.
pub fn window_event(controls: &mut Controls, event: WindowInput) -> (r: Vec<Action>)
    ensures
        final(controls).movements@ == next_movements(old(controls).movements@, event),
        r@ == actions_for(old(controls).movements@, event),
{
    let mut actions: Vec<Action> = Vec::new();
    let rotate = controls.movements[0];
    match event {
        WindowInput::CloseRequested => {
            actions.push(Action::Exit);
        },
        WindowInput::Resized { width, height } => {
            actions.push(Action::Resize { width, height });
            actions.push(Action::Refresh);
        },
        WindowInput::RedrawRequested => {},
        WindowInput::Keyboard { key, pressed } => {
            if pressed && (key == Key::Q || key == Key::Escape) {
                actions.push(Action::Exit);
            } else if key == Key::ControlLeft {
                controls.movements[0] = pressed;
            } else {
                let direction = match key {
                    Key::W => Some(Direction::Forward),
                    Key::S => Some(Direction::Backward),
                    Key::D => Some(Direction::Right),
                    Key::A => Some(Direction::Left),
                    Key::Z => Some(Direction::Up),
                    Key::X => Some(Direction::Down),
                    _ => None,
                };
                if let Some(direction) = direction {
                    actions.push(Action::Move { direction, rotate });
                    actions.push(Action::Refresh);
                }
            }
        },
        WindowInput::Mouse { button, pressed } => {
            match button {
                MouseButton::Left => {
                    controls.movements[0] = pressed;
                },
                MouseButton::Middle => {
                    controls.movements[1] = pressed;
                },
                MouseButton::Other => {},
            }
        },
        WindowInput::CursorMoved { dx, dy } => {
            if controls.movements[0] || controls.movements[1] {
                match dx {
                    Sign::Positive => actions.push(Action::Move { direction: Direction::Left, rotate }),
                    Sign::Negative => actions.push(Action::Move { direction: Direction::Right, rotate }),
                    Sign::Zero => {},
                }
                match dy {
                    Sign::Positive => actions.push(Action::Move { direction: Direction::Up, rotate }),
                    Sign::Negative => actions.push(Action::Move { direction: Direction::Down, rotate }),
                    Sign::Zero => {},
                }
                actions.push(Action::Refresh);
            }
        },
        WindowInput::Wheel { up } => {
            if up {
                actions.push(Action::ZoomIn);
            } else {
                actions.push(Action::ZoomOut);
            }
            actions.push(Action::Refresh);
        },
        WindowInput::Other => {},
    }
    proof {
        assert(actions@ =~= actions_for(old(controls).movements@, event));
        assert(controls.movements@ =~= next_movements(old(controls).movements@, event));
    }
    actions
}


/// Moving the cursor while a drag mode is on moves the camera once for each axis the cursor
/// moved along, horizontally first (left for a positive horizontal sign, right for a negative
/// one; up for a positive vertical sign, down for a negative one), each move rotating exactly
/// when the rotate mode is on, and then redraws. With no drag mode on it does nothing; it never
/// changes the drag modes.
pub proof fn law_dragging_moves_the_camera(m: Seq<bool>, dx: Sign, dy: Sign)
    requires
        m.len() == 3,
    ensures
        ({
            let acts = actions_for(m, WindowInput::CursorMoved { dx, dy });
            let h = if dx == Sign::Zero { 0int } else { 1int };
            let v = if dy == Sign::Zero { 0int } else { 1int };
            &&& next_movements(m, WindowInput::CursorMoved { dx, dy }) == m
            &&& !(m[0] || m[1]) ==> acts.len() == 0
            &&& (m[0] || m[1]) ==> {
                &&& acts.len() == h + v + 1
                &&& acts[acts.len() - 1] == Action::Refresh
                &&& forall|k: int|
                    0 <= k < acts.len() - 1 ==> (#[trigger] acts[k] matches Action::Move { rotate, .. }
                        && rotate == m[0])
                &&& dx == Sign::Positive ==> acts[0] == Action::Move { direction: Direction::Left, rotate: m[0] }
                &&& dx == Sign::Negative ==> acts[0] == Action::Move { direction: Direction::Right, rotate: m[0] }
                &&& dy == Sign::Positive ==> acts[h] == Action::Move { direction: Direction::Up, rotate: m[0] }
                &&& dy == Sign::Negative ==> acts[h] == Action::Move { direction: Direction::Down, rotate: m[0] }
            }
        }),
{
    let acts = actions_for(m, WindowInput::CursorMoved { dx, dy });
    if m[0] || m[1] {
        assert(acts == drag_moves(dx, dy, m[0]));
    }
}

/// Pressing or releasing the left button, or the left Ctrl key, switches the rotate mode to
/// pressed or released; the middle button does the same for the pan mode. Each leaves the
/// other modes alone, and no other input changes any mode.
pub proof fn law_drag_modes_follow_their_buttons(m: Seq<bool>, input: WindowInput)
    requires
        m.len() == 3,
    ensures
        ({
            let after = next_movements(m, input);
            &&& after.len() == 3
            &&& after[2] == m[2]
            &&& input matches WindowInput::Mouse { button: MouseButton::Left, pressed } ==> after[0] == pressed
                && after[1] == m[1]
            &&& input matches WindowInput::Keyboard { key: Key::ControlLeft, pressed } ==> after[0] == pressed
                && after[1] == m[1]
            &&& input matches WindowInput::Mouse { button: MouseButton::Middle, pressed } ==> after[1] == pressed
                && after[0] == m[0]
            &&& !(input matches WindowInput::Mouse { button: MouseButton::Left, .. })
                && !(input matches WindowInput::Mouse { button: MouseButton::Middle, .. })
                && !(input matches WindowInput::Keyboard { key: Key::ControlLeft, .. }) ==> after == m
        }),
{
}

/// Closing the window, or pressing Q or Escape, calls for exiting and nothing else.
pub proof fn law_close_and_quit_exit(m: Seq<bool>, key: Key)
    requires
        m.len() == 3,
    ensures
        actions_for(m, WindowInput::CloseRequested) == seq![Action::Exit],
        key == Key::Q || key == Key::Escape ==> actions_for(m, WindowInput::Keyboard { key, pressed: true })
            == seq![Action::Exit],
{
}

/// A movement key, pressed or released, moves the camera once and redraws: W forward, S
/// backward, A left, D right, Z up, X down, rotating exactly when the rotate mode is on.
pub proof fn law_movement_keys_move_the_camera(m: Seq<bool>, pressed: bool)
    requires
        m.len() == 3,
    ensures
        actions_for(m, WindowInput::Keyboard { key: Key::W, pressed }) == seq![
            Action::Move { direction: Direction::Forward, rotate: m[0] },
            Action::Refresh,
        ],
        actions_for(m, WindowInput::Keyboard { key: Key::S, pressed }) == seq![
            Action::Move { direction: Direction::Backward, rotate: m[0] },
            Action::Refresh,
        ],
        actions_for(m, WindowInput::Keyboard { key: Key::A, pressed }) == seq![
            Action::Move { direction: Direction::Left, rotate: m[0] },
            Action::Refresh,
        ],
        actions_for(m, WindowInput::Keyboard { key: Key::D, pressed }) == seq![
            Action::Move { direction: Direction::Right, rotate: m[0] },
            Action::Refresh,
        ],
        actions_for(m, WindowInput::Keyboard { key: Key::Z, pressed }) == seq![
            Action::Move { direction: Direction::Up, rotate: m[0] },
            Action::Refresh,
        ],
        actions_for(m, WindowInput::Keyboard { key: Key::X, pressed }) == seq![
            Action::Move { direction: Direction::Down, rotate: m[0] },
            Action::Refresh,
        ],
{
}

/// The wheel zooms in when turned up and out when turned down, and a resize resizes the
/// surface to the new size; each then redraws.
pub proof fn law_wheel_and_resize_redraw(m: Seq<bool>, up: bool, width: u32, height: u32)
    requires
        m.len() == 3,
    ensures
        actions_for(m, WindowInput::Wheel { up }) == seq![
            if up { Action::ZoomIn } else { Action::ZoomOut },
            Action::Refresh,
        ],
        actions_for(m, WindowInput::Resized { width, height }) == seq![
            Action::Resize { width, height },
            Action::Refresh,
        ],
{
}

} // verus!
