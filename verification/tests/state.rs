use geng::state::{
    combined_transition, frame_step, need_to_quit, FrameStep, StateManager, Transition,
};

#[test]
fn stack_transitions() {
    let mut m: StateManager<u32> = StateManager::new();
    assert!(matches!(m.transition(), Some(Transition::Pop)));
    assert!(m.current_state().is_none());
    m.push(1);
    m.apply_transition(Transition::Push(2));
    assert_eq!(m.current_state().copied(), Some(2));
    assert!(m.transition().is_none());
    m.apply_transition(Transition::Switch(3));
    assert_eq!(m.current_state().copied(), Some(3));
    *m.current_state().unwrap() = 4;
    m.apply_transition(Transition::Pop);
    assert_eq!(m.current_state().copied(), Some(1));
    m.pop();
    m.pop();
    assert!(matches!(m.transition(), Some(Transition::Pop)));
}

#[test]
fn first_transition_wins() {
    let r = combined_transition(Some(Transition::Push(1)), Some(Transition::Push(2)));
    assert!(matches!(r, Some(Transition::Push(1))));
    let r = combined_transition(None, Some(Transition::<u8>::Pop));
    assert!(matches!(r, Some(Transition::Pop)));
    let r: Option<Transition<u8>> = combined_transition(None, None);
    assert!(r.is_none());
}

#[test]
fn root_manager_quits_when_empty() {
    let mut m: StateManager<u8> = StateManager::new();
    assert!(need_to_quit(m.transition()));
    m.push(1);
    assert_eq!(m.len(), 1);
    assert!(!need_to_quit(m.transition()));
}

#[test]
fn frame_draws_only_with_an_area_and_quits_on_pop() {
    let running: StateManager<u32> = {
        let mut m = StateManager::new();
        m.push(1);
        m
    };
    assert_eq!(frame_step(800, 600, running.transition()), FrameStep { draw: true, quit: false });
    assert_eq!(frame_step(0, 600, running.transition()), FrameStep { draw: false, quit: false });
    assert_eq!(frame_step(800, 0, None::<Transition<u32>>), FrameStep { draw: false, quit: false });
    let empty: StateManager<u32> = StateManager::new();
    assert_eq!(frame_step(800, 600, empty.transition()), FrameStep { draw: true, quit: true });
}
