use geng::touch_simulator::{MouseInput, TouchEvent, TouchSimulator};
use geng::window::MouseButton;

#[test]
fn place_drag_remove() {
    let mut sim: TouchSimulator<(i32, i32)> = TouchSimulator::new();
    let out = sim.handle_event(MouseInput::Down { position: (1, 1), button: MouseButton::Left }, None);
    match out.as_deref() {
        Some([TouchEvent::TouchStart(t)]) => assert_eq!(t, &vec![(1, 1)]),
        other => panic!("{other:?}"),
    }
    let out = sim.handle_event(MouseInput::Move { position: (5, 5) }, None);
    match out.as_deref() {
        Some([TouchEvent::TouchMove(t)]) => assert_eq!(t, &vec![(5, 5)]),
        other => panic!("{other:?}"),
    }
    assert!(sim.handle_event(MouseInput::Up, None).unwrap().is_empty());
    assert!(sim.handle_event(MouseInput::Move { position: (7, 7) }, None).unwrap().is_empty());
    // left press on an existing touch holds it and lets the event through
    assert!(sim
        .handle_event(MouseInput::Down { position: (5, 5), button: MouseButton::Left }, Some(0))
        .is_none());
    let out = sim.handle_event(MouseInput::Down { position: (5, 5), button: MouseButton::Right }, Some(0));
    match out.as_deref() {
        Some([TouchEvent::TouchEnd(t)]) => assert!(t.is_empty()),
        other => panic!("{other:?}"),
    }
    assert!(sim.touches().is_empty());
    assert!(sim.handle_event(MouseInput::Other, None).is_none());
    assert!(sim
        .handle_event(MouseInput::Down { position: (0, 0), button: MouseButton::Middle }, None)
        .unwrap()
        .is_empty());
}
