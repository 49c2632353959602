use geng::debug_overlay::{events_for_game, OverlaySwitches};
use geng::window::Key;

#[test]
fn f3_and_m_switches() {
    let mut s = OverlaySwitches::new();
    assert!(s.handle_key_down(Key::F3, false));
    assert!(s.enabled && !s.touch_simulator);
    assert!(!s.handle_key_down(Key::M, false));
    assert!(s.enabled && !s.touch_simulator);
    assert!(s.handle_key_down(Key::M, true));
    assert!(!s.enabled && s.touch_simulator);
    assert!(!s.handle_key_down(Key::A, true));
    assert!(s.handle_key_down(Key::F3, true));
    assert!(s.enabled && s.touch_simulator);
}

#[test]
fn events_reach_the_game_after_simulated_touches() {
    assert_eq!(events_for_game(true, Some(vec![1, 2]), 3), Vec::<i32>::new());
    assert_eq!(events_for_game(false, Some(vec![1, 2]), 3), vec![1, 2, 3]);
    assert_eq!(events_for_game(false, None, 3), vec![3]);
    assert_eq!(events_for_game(false, Some(vec![]), 3), vec![3]);
}
