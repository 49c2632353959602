use geng::ui::{
    handle_pointer_event, Button, ButtonLook, route_pointer_event, route_pointer_event_unsensed, row, traverse_mut,
    PointerEvent, Sense,
    StateSlots, Visit, WidgetExt, WidgetNode,
};

#[test]
fn press_and_release_inside_clicks() {
    let mut s = Sense::default();
    assert!(route_pointer_event(&mut s, PointerEvent::Move, true));
    assert!(s.is_hovered());
    assert!(route_pointer_event(&mut s, PointerEvent::Down, true));
    assert!(s.is_captured());
    assert!(route_pointer_event(&mut s, PointerEvent::Up, true));
    assert!(!s.is_captured());
    assert!(s.was_clicked());
    assert!(!s.was_clicked());
}

#[test]
fn release_outside_does_not_click() {
    let mut s = Sense::default();
    assert!(route_pointer_event(&mut s, PointerEvent::Down, true));
    assert!(route_pointer_event(&mut s, PointerEvent::Down, false));
    assert!(route_pointer_event(&mut s, PointerEvent::Up, false));
    assert!(!s.was_clicked());
    assert!(!route_pointer_event(&mut s, PointerEvent::Down, false));
    assert!(!route_pointer_event(&mut s, PointerEvent::Up, false));
    assert!(!route_pointer_event(&mut s, PointerEvent::Other, true));
}

#[test]
fn unsensed_widgets() {
    assert!(route_pointer_event_unsensed(PointerEvent::Move, false));
    assert!(!route_pointer_event_unsensed(PointerEvent::Down, true));
    assert!(route_pointer_event_unsensed(PointerEvent::Up, true));
    assert!(!route_pointer_event_unsensed(PointerEvent::Up, false));
}

#[test]
fn state_slots_persist_across_frames() {
    let mut slots: StateSlots<u32> = StateSlots::new();
    *slots.get_state(1, 0) += 5;
    *slots.get_state(2, 100) += 1;
    slots.end_frame();
    assert_eq!(*slots.get_state(1, 0), 5);
    // a different kind of state in the second slot starts over
    assert_eq!(*slots.get_state(3, 7), 7);
    slots.end_frame();
    assert_eq!(*slots.get_state(1, 0), 5);
    slots.end_frame();
    // the second slot was dropped by the frame that used only one
    assert_eq!(*slots.get_state(1, 0), 5);
    assert_eq!(*slots.get_state(3, 9), 9);
}

#[test]
fn containers_keep_children() {
    let c = geng::ui::column(vec![1, 2, 3]);
    assert_eq!(c.children, vec![1, 2, 3]);
    let r = row(vec!["a"]);
    assert_eq!(r.children, vec!["a"]);
    let h = 5u8.handle_events(|x: u8| x + 1);
    assert_eq!(h.child, 5);
    assert_eq!((h.handler)(1), 2);
}

#[test]
fn walk_enters_parents_first_and_leaves_them_last() {
    let leaf = |id: u64| WidgetNode { id, children: Vec::new() };
    let tree = WidgetNode {
        id: 1,
        children: vec![WidgetNode { id: 2, children: vec![leaf(3)] }, leaf(4)],
    };
    assert_eq!(
        traverse_mut(&tree),
        vec![
            Visit::Enter(1),
            Visit::Enter(2),
            Visit::Enter(3),
            Visit::Leave(3),
            Visit::Leave(2),
            Visit::Enter(4),
            Visit::Leave(4),
            Visit::Leave(1),
        ]
    );
    assert_eq!(traverse_mut(&leaf(9)), vec![Visit::Enter(9), Visit::Leave(9)]);
}

#[test]
fn pointer_events_routed_through_the_tree() {
    let tree = WidgetNode {
        id: 1,
        children: vec![
            WidgetNode { id: 2, children: Vec::new() },
            WidgetNode { id: 3, children: Vec::new() },
        ],
    };
    // Widgets in walk order: 1 (no sense), 2 and 3 (with senses).
    let mut senses = vec![None, Some(Sense::default()), Some(Sense::default())];
    let inside = vec![true, true, false];
    assert_eq!(handle_pointer_event(&tree, &mut senses, &inside, PointerEvent::Down), vec![2]);
    assert!(senses[1].unwrap().is_captured());
    assert!(!senses[2].unwrap().is_captured());
    assert_eq!(handle_pointer_event(&tree, &mut senses, &inside, PointerEvent::Up), vec![1, 2]);
    let mut clicked = senses[1].unwrap();
    assert!(!clicked.is_captured());
    assert!(clicked.was_clicked());
    let mut other = senses[2].unwrap();
    assert!(!other.was_clicked());
    assert_eq!(
        handle_pointer_event(&tree, &mut senses, &vec![false, true, false], PointerEvent::Move),
        vec![1, 2, 3]
    );
    assert!(senses[1].unwrap().is_hovered());
    assert!(senses[0].is_none());
}

#[test]
fn widget_state_lives_across_frames() {
    let mut slots: StateSlots<i32> = StateSlots::new();
    *slots.get_state(7, 0) += 5;
    *slots.get_state(8, 100) += 1;
    *slots.get_state(9, 0) += 1;
    slots.end_frame();
    assert_eq!(*slots.get_state(7, 0), 5);
    assert_eq!(*slots.get_state(9, 0), 0);
    slots.end_frame();
    assert_eq!(*slots.get_state(7, -1), 5);
    assert_eq!(*slots.get_state(9, 0), 0);
    assert_eq!(*slots.get_state(8, 42), 42);
}

#[test]
fn button_runs_its_action_once_per_click() {
    let mut sense = Sense::default();
    route_pointer_event(&mut sense, PointerEvent::Move, true);
    route_pointer_event(&mut sense, PointerEvent::Down, true);
    let button = Button::new(&sense, String::from("OK"), 0u32);
    assert_eq!(button.look, ButtonLook { hover_color: true, underlined: true, pressed: true });
    assert_eq!(button.text, "OK");
    let mut button = button;
    assert!(button.handle_event(&mut sense).is_none());
    route_pointer_event(&mut sense, PointerEvent::Up, true);
    if let Some(count) = button.handle_event(&mut sense) {
        *count += 1;
    }
    assert_eq!(button.action, 1);
    assert!(button.handle_event(&mut sense).is_none());
    assert_eq!(button.action, 1);
    let idle = Button::new(&Sense::default(), String::from("x"), ());
    assert_eq!(idle.look, ButtonLook { hover_color: false, underlined: false, pressed: false });
}
