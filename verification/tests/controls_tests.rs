use raytrace::application::app::{window_event, Action, Controls, Key, MouseButton, Sign, WindowInput};
use raytrace::rendering::camera::Direction;

fn idle() -> Controls {
    Controls { movements: [false; 3] }
}

#[test]
fn close_and_quit_keys_exit() {
    let mut c = idle();
    assert_eq!(window_event(&mut c, WindowInput::CloseRequested), vec![Action::Exit]);
    assert_eq!(window_event(&mut c, WindowInput::Keyboard { key: Key::Q, pressed: true }), vec![Action::Exit]);
    assert_eq!(window_event(&mut c, WindowInput::Keyboard { key: Key::Escape, pressed: true }), vec![Action::Exit]);
    assert_eq!(window_event(&mut c, WindowInput::Keyboard { key: Key::Q, pressed: false }), vec![]);
}

#[test]
fn resize_resizes_and_refreshes() {
    let mut c = idle();
    assert_eq!(
        window_event(&mut c, WindowInput::Resized { width: 800, height: 600 }),
        vec![Action::Resize { width: 800, height: 600 }, Action::Refresh]
    );
    assert_eq!(window_event(&mut c, WindowInput::RedrawRequested), vec![]);
}

#[test]
fn movement_keys_move_the_camera() {
    let mut c = idle();
    let cases = [
        (Key::W, Direction::Forward),
        (Key::S, Direction::Backward),
        (Key::D, Direction::Right),
        (Key::A, Direction::Left),
        (Key::Z, Direction::Up),
        (Key::X, Direction::Down),
    ];
    for (key, direction) in cases {
        assert_eq!(
            window_event(&mut c, WindowInput::Keyboard { key, pressed: true }),
            vec![Action::Move { direction, rotate: false }, Action::Refresh]
        );
        assert_eq!(
            window_event(&mut c, WindowInput::Keyboard { key, pressed: false }),
            vec![Action::Move { direction, rotate: false }, Action::Refresh]
        );
    }
    assert_eq!(window_event(&mut c, WindowInput::Keyboard { key: Key::Other, pressed: true }), vec![]);
}

#[test]
fn left_control_switches_rotation() {
    let mut c = idle();
    assert_eq!(window_event(&mut c, WindowInput::Keyboard { key: Key::ControlLeft, pressed: true }), vec![]);
    assert_eq!(c.movements, [true, false, false]);
    assert_eq!(
        window_event(&mut c, WindowInput::Keyboard { key: Key::W, pressed: true }),
        vec![Action::Move { direction: Direction::Forward, rotate: true }, Action::Refresh]
    );
    window_event(&mut c, WindowInput::Keyboard { key: Key::ControlLeft, pressed: false });
    assert_eq!(c.movements, [false, false, false]);
}

#[test]
fn dragging_moves_camera() {
    let mut c = idle();
    assert_eq!(window_event(&mut c, WindowInput::CursorMoved { dx: Sign::Positive, dy: Sign::Negative }), vec![]);
    window_event(&mut c, WindowInput::Mouse { button: MouseButton::Middle, pressed: true });
    assert_eq!(c.movements, [false, true, false]);
    assert_eq!(
        window_event(&mut c, WindowInput::CursorMoved { dx: Sign::Positive, dy: Sign::Negative }),
        vec![
            Action::Move { direction: Direction::Left, rotate: false },
            Action::Move { direction: Direction::Down, rotate: false },
            Action::Refresh
        ]
    );
    window_event(&mut c, WindowInput::Mouse { button: MouseButton::Left, pressed: true });
    assert_eq!(
        window_event(&mut c, WindowInput::CursorMoved { dx: Sign::Negative, dy: Sign::Zero }),
        vec![Action::Move { direction: Direction::Right, rotate: true }, Action::Refresh]
    );
    assert_eq!(
        window_event(&mut c, WindowInput::CursorMoved { dx: Sign::Zero, dy: Sign::Positive }),
        vec![Action::Move { direction: Direction::Up, rotate: true }, Action::Refresh]
    );
    window_event(&mut c, WindowInput::Mouse { button: MouseButton::Left, pressed: false });
    window_event(&mut c, WindowInput::Mouse { button: MouseButton::Middle, pressed: false });
    window_event(&mut c, WindowInput::Mouse { button: MouseButton::Other, pressed: true });
    assert_eq!(c.movements, [false, false, false]);
}

#[test]
fn wheel_zooms() {
    let mut c = idle();
    assert_eq!(window_event(&mut c, WindowInput::Wheel { up: true }), vec![Action::ZoomIn, Action::Refresh]);
    assert_eq!(window_event(&mut c, WindowInput::Wheel { up: false }), vec![Action::ZoomOut, Action::Refresh]);
    assert_eq!(window_event(&mut c, WindowInput::Other), vec![]);
}
