use geng::window::{
    keyboard_event, locked_cursor_position, mouse_event_kind, touch_event_kind,
    wheel_delta_scale, window_size, CursorType, InputEvent, InputState, Key, KeyEvent,
    MouseButton, MouseEventKind, NativeCursorIcon, TouchEventKind,
};

#[test]
fn key_codes() {
    assert_eq!(Key::from_code("KeyA"), Some(Key::A));
    assert_eq!(Key::from_code("Digit7"), Some(Key::Num7));
    assert_eq!(Key::from_code("ShiftRight"), Some(Key::RShift));
    assert_eq!(Key::from_code("F12"), Some(Key::F12));
    assert_eq!(Key::from_code("Numpad1"), None);
    assert_eq!(Key::from_code("keya"), None);
}

#[test]
fn keyboard_events() {
    assert_eq!(keyboard_event(false, "KeyW", "keydown"), Some(KeyEvent::KeyDown(Key::W)));
    assert_eq!(keyboard_event(false, "Escape", "keyup"), Some(KeyEvent::KeyUp(Key::Escape)));
    assert_eq!(keyboard_event(true, "KeyW", "keydown"), None);
    assert_eq!(keyboard_event(false, "KeyW", "keypress"), None);
    assert_eq!(keyboard_event(false, "Unknown", "keydown"), None);
}

#[test]
fn mouse_buttons_and_cursors() {
    assert_eq!(MouseButton::from_dom_button(0), Some(MouseButton::Left));
    assert_eq!(MouseButton::from_dom_button(1), Some(MouseButton::Middle));
    assert_eq!(MouseButton::from_dom_button(2), Some(MouseButton::Right));
    assert_eq!(MouseButton::from_dom_button(3), None);
    assert_eq!(CursorType::Drag.css_name(), "all-scroll");
    assert_eq!(CursorType::Default.css_name(), "initial");
    assert!(!CursorType::Hidden.is_visible());
    assert!(CursorType::Pointer.is_visible());
}

#[test]
fn minimized_window_has_unit_size() {
    assert_eq!(window_size(0, 0), (1, 1));
    assert_eq!(window_size(800, 0), (800, 1));
    assert_eq!(window_size(640, 480), (640, 480));
}

#[test]
fn pressed_keys_and_buttons() {
    let mut input = InputState::new();
    input.handle_event(InputEvent::KeyDown(Key::A));
    input.handle_event(InputEvent::KeyDown(Key::A));
    input.handle_event(InputEvent::KeyDown(Key::B));
    input.handle_event(InputEvent::MouseDown(MouseButton::Left));
    assert!(input.is_key_pressed(Key::A));
    assert!(input.is_button_pressed(MouseButton::Left));
    assert_eq!(input.pressed_keys().len(), 2);
    input.handle_event(InputEvent::KeyUp(Key::A));
    input.handle_event(InputEvent::MouseUp(MouseButton::Left));
    input.handle_event(InputEvent::Other);
    assert!(!input.is_key_pressed(Key::A));
    assert!(input.is_key_pressed(Key::B));
    assert!(!input.is_button_pressed(MouseButton::Left));
}

#[test]
fn mouse_event_kinds() {
    assert_eq!(mouse_event_kind("mousedown", 0), Some(MouseEventKind::Down(MouseButton::Left)));
    assert_eq!(mouse_event_kind("mouseup", 2), Some(MouseEventKind::Up(MouseButton::Right)));
    assert_eq!(mouse_event_kind("mousedown", 4), None);
    assert_eq!(mouse_event_kind("mousemove", 7), Some(MouseEventKind::Move));
    assert_eq!(mouse_event_kind("click", 0), None);
}

#[test]
fn touch_event_kinds() {
    assert_eq!(touch_event_kind("touchstart"), Some(TouchEventKind::Start));
    assert_eq!(touch_event_kind("touchmove"), Some(TouchEventKind::Move));
    assert_eq!(touch_event_kind("touchend"), Some(TouchEventKind::End));
    assert_eq!(touch_event_kind("touchcancel"), Some(TouchEventKind::End));
    assert_eq!(touch_event_kind("mousedown"), None);
}

#[test]
fn wheel_scales() {
    assert_eq!(wheel_delta_scale(0), Some(1));
    assert_eq!(wheel_delta_scale(1), Some(51));
    assert_eq!(wheel_delta_scale(2), Some(800));
    assert_eq!(wheel_delta_scale(3), None);
}

#[test]
fn locked_cursor_is_centered() {
    assert_eq!(locked_cursor_position((800, 600)), (400, 300));
    assert_eq!(locked_cursor_position((801, 1)), (400, 0));
}

#[test]
fn pressed_buttons_listed() {
    let mut input = InputState::new();
    assert!(input.pressed_buttons().is_empty());
    input.handle_event(InputEvent::MouseDown(MouseButton::Right));
    input.handle_event(InputEvent::MouseDown(MouseButton::Right));
    input.handle_event(InputEvent::MouseDown(MouseButton::Middle));
    let buttons = input.pressed_buttons();
    assert_eq!(buttons.len(), 2);
    assert!(buttons.contains(&MouseButton::Right));
    assert!(buttons.contains(&MouseButton::Middle));
    input.handle_event(InputEvent::MouseUp(MouseButton::Right));
    assert_eq!(input.pressed_buttons(), vec![MouseButton::Middle]);
}

#[test]
fn escape_unlocks_the_cursor() {
    let mut input = InputState::new();
    assert!(!input.cursor_locked());
    assert_eq!(input.cursor_recenter(true, (800, 600)), None);
    input.lock_cursor();
    assert!(input.cursor_locked());
    assert_eq!(input.cursor_recenter(true, (800, 600)), Some((400, 300)));
    assert_eq!(input.cursor_recenter(false, (800, 600)), None);
    input.handle_event(InputEvent::KeyDown(Key::A));
    assert!(input.cursor_locked());
    input.handle_event(InputEvent::KeyDown(Key::Escape));
    assert!(!input.cursor_locked());
    assert!(input.is_key_pressed(Key::Escape));
    input.lock_cursor();
    input.unlock_cursor();
    assert!(!input.cursor_locked());
}

#[test]
fn frame_of_events_updates_held_keys() {
    let mut input = InputState::new();
    input.lock_cursor();
    input.handle_events(&vec![
        InputEvent::KeyDown(Key::A),
        InputEvent::MouseDown(MouseButton::Left),
        InputEvent::KeyDown(Key::B),
        InputEvent::KeyUp(Key::A),
        InputEvent::Other,
    ]);
    assert!(!input.is_key_pressed(Key::A));
    assert!(input.is_key_pressed(Key::B));
    assert!(input.is_button_pressed(MouseButton::Left));
    assert!(input.cursor_locked());
    input.handle_events(&vec![InputEvent::KeyDown(Key::Escape), InputEvent::KeyUp(Key::Escape)]);
    assert!(!input.cursor_locked());
    assert!(!input.is_key_pressed(Key::Escape));
}

#[test]
fn native_cursor_icons() {
    assert_eq!(CursorType::Default.native_icon(), NativeCursorIcon::Default);
    assert_eq!(CursorType::Pointer.native_icon(), NativeCursorIcon::Hand);
    assert_eq!(CursorType::Drag.native_icon(), NativeCursorIcon::AllScroll);
    assert_eq!(CursorType::Hidden.native_icon(), NativeCursorIcon::Default);
}
