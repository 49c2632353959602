//! The immediate-mode UI: how pointer events reach widgets and change their
//! hover/press state, the per-frame state slots that widgets keep across
//! frames, and the layout containers.
use vstd::prelude::*;

verus! {

/// Hover, press and click state of an interactive widget.
#[derive(Debug, Clone, Copy)]
pub struct Sense {
    hovered: bool,
    captured: bool,
    clicked: bool,
}

impl Sense {
    pub closed spec fn hovered(self) -> bool {
        self.hovered
    }

    pub closed spec fn captured(self) -> bool {
        self.captured
    }

    pub closed spec fn clicked(self) -> bool {
        self.clicked
    }

    pub fn is_hovered(&self) -> (r: bool)
        ensures
            r == self.hovered(),
    {
        self.hovered
    }

    pub fn is_captured(&self) -> (r: bool)
        ensures
            r == self.captured(),
    {
        self.captured
    }

    pub fn set_hovered(&mut self, hovered: bool)
        ensures
            final(self).hovered() == hovered,
            final(self).captured() == old(self).captured(),
            final(self).clicked() == old(self).clicked(),
    {
        self.hovered = hovered;
    }

    pub fn set_captured(&mut self, captured: bool)
        ensures
            final(self).captured() == captured,
            final(self).hovered() == old(self).hovered(),
            final(self).clicked() == old(self).clicked(),
    {
        self.captured = captured;
    }

    /// Records a click.
    pub fn click(&mut self)
        ensures
            final(self).clicked(),
            final(self).hovered() == old(self).hovered(),
            final(self).captured() == old(self).captured(),
    {
        self.clicked = true;
    }

    /// Whether a click was recorded since the last call; clears it.
    pub fn was_clicked(&mut self) -> (r: bool)
        ensures
            r == old(self).clicked(),
            !final(self).clicked(),
            final(self).hovered() == old(self).hovered(),
            final(self).captured() == old(self).captured(),
    {
        let r = self.clicked;
        self.clicked = false;
        r
    }
}

impl Default for Sense {
    fn default() -> (r: Self)
        ensures
            !r.hovered(),
            !r.captured(),
            !r.clicked(),
    {
        Sense { hovered: false, captured: false, clicked: false }
    }
}

/// A pointer event, without its position; whether the position lies in the
/// widget is given beside it.
#[derive(Debug, Clone, Copy, PartialEq, Eq, Structural)]
pub enum PointerEvent {
    Move,
    Down,
    Up,
    Other,
}

/// A sense as (hovered, captured, clicked).
pub open spec fn sense_parts(s: Sense) -> (bool, bool, bool) {
    (s.hovered(), s.captured(), s.clicked())
}

/// What a pointer event does to a widget with a sense, given as (hovered,
/// captured, clicked): the new sense and whether the widget gets the event.
pub open spec fn pointer_step(s: (bool, bool, bool), event: PointerEvent, inside: bool) -> (
    (bool, bool, bool),
    bool,
) {
    let (hovered, captured, clicked) = s;
    match event {
        PointerEvent::Move => ((inside, captured, clicked), true),
        PointerEvent::Down => if inside {
            ((hovered, true, clicked), true)
        } else {
            ((hovered, captured, clicked), captured)
        },
        PointerEvent::Up => ((hovered, false, clicked || (captured && inside)), captured || inside),
        PointerEvent::Other => ((hovered, captured, clicked), false),
    }
}

/// Routes a pointer event to a widget that has a sense: a move sets the
/// hover state; a press inside captures the pointer; a release ends the
/// capture and counts as a click when it happens inside a captured widget.
/// Returns whether the widget gets the event.
pub fn route_pointer_event(sense: &mut Sense, event: PointerEvent, inside: bool) -> (r: bool)
    ensures
        (sense_parts(*final(sense)), r) == pointer_step(sense_parts(*old(sense)), event, inside),
{
    match event {
        PointerEvent::Move => {
            sense.set_hovered(inside);
            true
        },
        PointerEvent::Down => {
            if inside {
                sense.set_captured(true);
                true
            } else {
                sense.is_captured()
            }
        },
        PointerEvent::Up => {
            let was_captured = sense.is_captured();
            sense.set_captured(false);
            if was_captured && inside {
                sense.click();
            }
            was_captured || inside
        },
        PointerEvent::Other => false,
    }
}

/// Whether a widget without a sense gets a pointer event: every move, and a
/// release inside it.
pub fn route_pointer_event_unsensed(event: PointerEvent, inside: bool) -> (r: bool)
    ensures
        r == (event == PointerEvent::Move || (event == PointerEvent::Up && inside)),
{
    match event {
        PointerEvent::Move => true,
        PointerEvent::Up => inside,
        _ => false,
    }
}

/// A pointer move makes a widget hovered exactly when the pointer lies in
/// it, whatever it was before: moving off a widget un-hovers it. The move
/// reaches the widget and changes neither its capture nor its click; the
/// same holds for each widget when the move is routed through the tree.
pub proof fn law_move_sets_hover(s: Sense, inside: bool)
    ensures
        ({
            let (after, gets) = pointer_step(sense_parts(s), PointerEvent::Move, inside);
            &&& after.0 == inside
            &&& after.1 == s.captured()
            &&& after.2 == s.clicked()
            &&& gets
        }),
        forall|after: Option<Sense>|
            routed(Some(s), after, PointerEvent::Move, inside) ==> (after->0).hovered() == inside,
{
}

/// A press and a release both inside a widget make a click, and leave the
/// pointer free; a press inside and a release outside make none.
pub proof fn law_click_needs_press_and_release_inside(s: (bool, bool, bool))
    requires
        !s.2,
    ensures
        ({
            let (s1, d1) = pointer_step(s, PointerEvent::Down, true);
            let (s2, d2) = pointer_step(s1, PointerEvent::Up, true);
            d1 && d2 && s2.2 && !s2.1
        }),
        ({
            let (s1, _) = pointer_step(s, PointerEvent::Down, true);
            let (s2, d2) = pointer_step(s1, PointerEvent::Up, false);
            d2 && !s2.2 && !s2.1
        }),
        ({
            let (s2, _) = pointer_step((s.0, false, s.2), PointerEvent::Up, true);
            !s2.2
        }),
{
}

/// How a button is drawn: in the hover color and underlined while the
/// pointer is over it, shrunk while it is pressed.
#[derive(Debug, Clone, Copy, PartialEq, Eq, Structural)]
pub struct ButtonLook {
    pub hover_color: bool,
    pub underlined: bool,
    pub pressed: bool,
}

/// A button with a text label and an action that runs when it is clicked;
/// its sense lives in the UI state slots.
pub struct Button<F> {
    pub text: String,
    pub look: ButtonLook,
    pub action: F,
}

impl<F> Button<F> {
    /// A button labeled `text`, drawn as its `sense` says.
    pub fn new(sense: &Sense, text: String, action: F) -> (r: Self)
        ensures
            r.text@ == text@,
            r.look == (ButtonLook {
                hover_color: sense.hovered(),
                underlined: sense.hovered(),
                pressed: sense.captured(),
            }),
            r.action == action,
    {
        let hovered = sense.is_hovered();
        let look = ButtonLook { hover_color: hovered, underlined: hovered, pressed: sense.is_captured() };
        Button { text, look, action }
    }

    /// Handles an event that reached the button: when a click was recorded
    /// on its sense, clears it and hands out the action to run.
    pub fn handle_event(&mut self, sense: &mut Sense) -> (r: Option<&mut F>)
        ensures
            (r is Some) == old(sense).clicked(),
            !final(sense).clicked(),
            final(sense).hovered() == old(sense).hovered(),
            final(sense).captured() == old(sense).captured(),
            r is None ==> final(self).action == old(self).action,
            r matches Some(f) ==> *f == old(self).action && final(self).action == *final(f),
            final(self).text == old(self).text,
            final(self).look == old(self).look,
    {
        if sense.was_clicked() {
            Some(&mut self.action)
        } else {
            None
        }
    }
}

/// State that widgets keep from frame to frame: the `k`-th request of a
/// frame gets the `k`-th slot, which keeps its value while the same kind
/// of state (the tag) asks for it.
pub struct StateSlots<V> {
    slots: Vec<(u64, V)>,
    next: usize,
}

impl<V> StateSlots<V> {
    pub closed spec fn slots(&self) -> Seq<(u64, V)> {
        self.slots@
    }

    pub closed spec fn next(&self) -> nat {
        self.next as nat
    }

    /// The requests of a frame so far have a slot each.
    #[verifier::type_invariant]
    spec fn next_within_slots(&self) -> bool {
        self.next <= self.slots.len()
    }

    /// No slots.
    pub fn new() -> (r: Self)
        ensures
            r.slots() == Seq::<(u64, V)>::empty(),
            r.next() == 0,
    {
        StateSlots { slots: Vec::new(), next: 0 }
    }

    /// The state of the next request of this frame, for state of kind `tag`:
    /// the slot's value when the slot holds that kind, else `default`.
    pub fn get_state(&mut self, tag: u64, default: V) -> (r: &mut V)
        requires
            old(self).next() < usize::MAX,
        ensures
            old(self).next() <= old(self).slots().len(),
            *r == request_value(old(self).slots(), old(self).next(), tag, default),
            final(self).next() == old(self).next() + 1,
            final(self).slots() == slots_after_request(
                old(self).slots(),
                old(self).next(),
                tag,
                *final(r),
            ),
    {
        proof {
            use_type_invariant(&*self);
        }
        let k = self.next;
        self.next = 0;
        let mut slots: Vec<(u64, V)> = Vec::new();
        std::mem::swap(&mut slots, &mut self.slots);
        if k >= slots.len() {
            slots.push((tag, default));
        } else if slots[k].0 != tag {
            slots.set(k, (tag, default));
        }
        self.slots = slots;
        self.next = k + 1;
        &mut self.slots[k].1
    }

    /// Ends a frame: drops the slots that this frame did not ask for.
    pub fn end_frame(&mut self)
        ensures
            old(self).next() <= old(self).slots().len(),
            final(self).slots() == old(self).slots().take(old(self).next() as int),
            final(self).next() == 0,
    {
        proof {
            use_type_invariant(&*self);
        }
        let n = self.next;
        self.next = 0;
        let mut slots: Vec<(u64, V)> = Vec::new();
        std::mem::swap(&mut slots, &mut self.slots);
        slots.truncate(n);
        self.slots = slots;
    }
}

/// What the request at index `next` for state of kind `tag` gets from
/// `slots`: the slot's value when the slot holds that kind, else `default`.
pub open spec fn request_value<V>(slots: Seq<(u64, V)>, next: nat, tag: u64, default: V) -> V {
    if next < slots.len() && slots[next as int].0 == tag {
        slots[next as int].1
    } else {
        default
    }
}

/// The slots after the request at index `next` for state of kind `tag`,
/// whose widget left the state as `left`.
pub open spec fn slots_after_request<V>(slots: Seq<(u64, V)>, next: nat, tag: u64, left: V) -> Seq<
    (u64, V),
> {
    if next < slots.len() {
        slots.update(next as int, (tag, left))
    } else {
        slots.push((tag, left))
    }
}

/// The slots after the requests `requests` (each a kind of state and the
/// value its widget left) made one after another from the first slot on.
pub open spec fn slots_after_requests<V>(slots: Seq<(u64, V)>, requests: Seq<(u64, V)>) -> Seq<
    (u64, V),
>
    decreases requests.len(),
{
    if requests.len() == 0 {
        slots
    } else {
        let before = slots_after_requests(slots, requests.drop_last());
        slots_after_request(
            before,
            (requests.len() - 1) as nat,
            requests.last().0,
            requests.last().1,
        )
    }
}

proof fn lemma_slots_after_requests<V>(slots: Seq<(u64, V)>, requests: Seq<(u64, V)>)
    ensures
        slots_after_requests(slots, requests).len() == if slots.len() < requests.len() {
            requests.len()
        } else {
            slots.len()
        },
        forall|j: int|
            0 <= j < requests.len() ==> #[trigger] slots_after_requests(slots, requests)[j]
                == requests[j],
        forall|j: int|
            requests.len() <= j < slots.len() ==> #[trigger] slots_after_requests(slots, requests)[j]
                == slots[j],
    decreases requests.len(),
{
    if requests.len() > 0 {
        lemma_slots_after_requests(slots, requests.drop_last());
    }
}

/// A widget's state lives on from frame to frame: after a frame whose
/// requests were `frame` (each a kind of state and the value its widget left)
/// and which ended with `end_frame`, the `i`-th request of the next frame gets
/// the value left by the `i`-th request of that frame when it asks for the
/// same kind of state, and `default` otherwise, whatever the slots held
/// before.
pub proof fn law_state_kept_across_frames<V>(
    slots: Seq<(u64, V)>,
    frame: Seq<(u64, V)>,
    next_frame: Seq<(u64, V)>,
    i: int,
    default: V,
)
    requires
        0 <= i < next_frame.len(),
    ensures
        ({
            let kept = slots_after_requests(slots, frame).take(frame.len() as int);
            let now = slots_after_requests(kept, next_frame.take(i));
            request_value(now, i as nat, next_frame[i].0, default) == if i < frame.len()
                && frame[i].0 == next_frame[i].0 {
                frame[i].1
            } else {
                default
            }
        }),
{
    lemma_slots_after_requests(slots, frame);
    let kept = slots_after_requests(slots, frame).take(frame.len() as int);
    assert(kept =~= frame);
    lemma_slots_after_requests(kept, next_frame.take(i));
}

/// A widget in the tree that the controller walks, known by its id (what
/// the controller keys a widget's constraints and position by).
pub struct WidgetNode {
    pub id: u64,
    pub children: Vec<WidgetNode>,
}

/// One step of a walk over the widget tree: entering a widget, before its
/// children, or leaving it, after them.
#[derive(Debug, Clone, Copy, PartialEq, Eq, Structural)]
pub enum Visit {
    Enter(u64),
    Leave(u64),
}

/// The steps of a depth-first walk of `node`: enter it, walk each child in
/// order, leave it.
pub open spec fn visits(node: WidgetNode) -> Seq<Visit>
    decreases node,
{
    seq![Visit::Enter(node.id)] + visits_list(node.children@) + seq![Visit::Leave(node.id)]
}

/// The walks of `nodes`, one after another.
pub open spec fn visits_list(nodes: Seq<WidgetNode>) -> Seq<Visit>
    decreases nodes,
{
    if nodes.len() == 0 {
        Seq::empty()
    } else {
        visits_list(nodes.drop_last()) + visits(nodes.last())
    }
}

/// How many widgets the tree of `node` holds.
pub open spec fn tree_size(node: WidgetNode) -> nat
    decreases node,
{
    1 + list_size(node.children@)
}

/// How many widgets the trees of `nodes` hold together.
pub open spec fn list_size(nodes: Seq<WidgetNode>) -> nat
    decreases nodes,
{
    if nodes.len() == 0 {
        0
    } else {
        list_size(nodes.drop_last()) + tree_size(nodes.last())
    }
}

fn push_visits(node: &WidgetNode, out: &mut Vec<Visit>)
    ensures
        final(out)@ == old(out)@ + visits(*node),
    decreases node,
{
    out.push(Visit::Enter(node.id));
    let ghost start = out@;
    let mut i: usize = 0;
    while i < node.children.len()
        invariant
            i <= node.children@.len(),
            out@ == start + visits_list(node.children@.take(i as int)),
        decreases node.children@.len() - i,
    {
        push_visits(&node.children[i], out);
        proof {
            let s = node.children@.take(i as int + 1);
            assert(s.drop_last() =~= node.children@.take(i as int));
            assert(s.last() == node.children@[i as int]);
        }
        i = i + 1;
    }
    assert(node.children@.take(i as int) =~= node.children@);
    out.push(Visit::Leave(node.id));
}

/// The order in which the controller visits the widgets of `root`: each
/// widget is entered before its children are walked and left after them.
pub fn traverse_mut(root: &WidgetNode) -> (r: Vec<Visit>)
    ensures
        r@ == visits(*root),
{
    let mut out: Vec<Visit> = Vec::new();
    push_visits(root, &mut out);
    assert(out@ =~= visits(*root));
    out
}

/// For a widget that the controller routes a press inside it and then a
/// release to: the release frees the pointer, reaches the widget, and
/// counts as a click exactly when it is inside too; and a release that
/// reaches a widget that had not captured the pointer never makes a click.
pub proof fn law_tree_click(s0: Sense, s1: Option<Sense>, s2: Option<Sense>, up_inside: bool)
    requires
        !s0.clicked(),
        routed(Some(s0), s1, PointerEvent::Down, true),
        routed(s1, s2, PointerEvent::Up, up_inside),
    ensures
        s2 is Some,
        !(s2->0).captured(),
        (s2->0).clicked() == up_inside,
        gets_event(s1, PointerEvent::Up, up_inside),
        !s0.captured() ==> !pointer_step(sense_parts(s0), PointerEvent::Up, up_inside).0.2,
{
}

/// The widgets a walk enters, in the order it enters them.
pub open spec fn entered(steps: Seq<Visit>) -> Seq<u64>
    decreases steps.len(),
{
    if steps.len() == 0 {
        Seq::empty()
    } else {
        let before = entered(steps.drop_last());
        match steps.last() {
            Visit::Enter(id) => before.push(id),
            Visit::Leave(_) => before,
        }
    }
}

/// Whether a widget with `sense` (`None` for a widget without one) gets a
/// pointer event.
pub open spec fn gets_event(sense: Option<Sense>, event: PointerEvent, inside: bool) -> bool {
    match sense {
        Some(s) => pointer_step(sense_parts(s), event, inside).1,
        None => event == PointerEvent::Move || (event == PointerEvent::Up && inside),
    }
}

/// Whether `after` is the sense `before` as a pointer event leaves it: a
/// widget without a sense stays without one.
pub open spec fn routed(before: Option<Sense>, after: Option<Sense>, event: PointerEvent, inside: bool) -> bool {
    match before {
        Some(s) => after is Some && sense_parts(after->0) == pointer_step(sense_parts(s), event, inside).0,
        None => after is None,
    }
}

/// The widgets among `ids` that get a pointer event, in order; the `k`-th
/// has `senses[k]` and lies around the pointer where `inside[k]`.
pub open spec fn receivers(
    ids: Seq<u64>,
    senses: Seq<Option<Sense>>,
    inside: Seq<bool>,
    event: PointerEvent,
) -> Seq<u64>
    decreases ids.len(),
{
    if ids.len() == 0 {
        Seq::empty()
    } else {
        let before = receivers(ids.drop_last(), senses, inside, event);
        let k = ids.len() - 1;
        if gets_event(senses[k], event, inside[k]) {
            before.push(ids[k])
        } else {
            before
        }
    }
}

/// Routes a pointer event through the widget tree of `root`, as the UI
/// controller does: the widgets are taken in the order the walk enters them,
/// the `k`-th with the sense `senses[k]` (if it has one) and lying around the
/// pointer where `inside[k]`. Each sense changes as routing the event to that
/// widget alone changes it; returns the widgets that get the event, in
/// order.
pub fn handle_pointer_event(
    root: &WidgetNode,
    senses: &mut Vec<Option<Sense>>,
    inside: &Vec<bool>,
    event: PointerEvent,
) -> (r: Vec<u64>)
    requires
        old(senses)@.len() == entered(visits(*root)).len(),
        inside@.len() == old(senses)@.len(),
    ensures
        r@ == receivers(entered(visits(*root)), old(senses)@, inside@, event),
        final(senses)@.len() == old(senses)@.len(),
        forall|k: int|
            0 <= k < old(senses)@.len() ==> routed(
                old(senses)@[k],
                #[trigger] final(senses)@[k],
                event,
                inside@[k],
            ),
{
    let steps = traverse_mut(root);
    let ghost ids = entered(steps@);
    let ghost start = senses@;
    let mut out: Vec<u64> = Vec::new();
    let mut k: usize = 0;
    let mut j: usize = 0;
    while j < steps.len()
        invariant
            j <= steps@.len(),
            steps@ == visits(*root),
            ids == entered(steps@),
            start.len() == ids.len(),
            inside@.len() == ids.len(),
            k == entered(steps@.take(j as int)).len(),
            entered(steps@.take(j as int)) == ids.take(k as int),
            k <= ids.len(),
            senses@.len() == start.len(),
            out@ == receivers(ids.take(k as int), start, inside@, event),
            forall|m: int| 0 <= m < k ==> routed(start[m], #[trigger] senses@[m], event, inside@[m]),
            forall|m: int| k <= m < start.len() ==> senses@[m] == start[m],
        decreases steps@.len() - j,
    {
        proof {
            lemma_entered_prefix(steps@, j as int + 1);
            assert(steps@.take(j + 1).drop_last() =~= steps@.take(j as int));
            assert(steps@.take(j + 1).last() == steps@[j as int]);
        }
        match steps[j] {
            Visit::Enter(id) => {
                proof {
                    assert(entered(steps@.take(j + 1)) == ids.take(k as int).push(id));
                    assert(k + 1 <= ids.len());
                    assert(ids.take(k + 1) =~= ids.take(k as int).push(id));
                    assert(ids.take(k + 1).drop_last() =~= ids.take(k as int));
                }
                let gets = match senses[k] {
                    Some(s) => {
                        let mut s2 = s;
                        let got = route_pointer_event(&mut s2, event, inside[k]);
                        senses.set(k, Some(s2));
                        got
                    },
                    None => route_pointer_event_unsensed(event, inside[k]),
                };
                if gets {
                    out.push(id);
                }
                assert(k < senses.len());
                k = k + 1;
            },
            Visit::Leave(_) => {},
        }
        j = j + 1;
    }
    proof {
        assert(steps@.take(j as int) =~= steps@);
        assert(ids.take(k as int) =~= ids);
    }
    out
}

proof fn lemma_entered_prefix(steps: Seq<Visit>, j: int)
    requires
        0 <= j <= steps.len(),
    ensures
        entered(steps.take(j)).len() <= entered(steps).len(),
        entered(steps.take(j)) == entered(steps).take(entered(steps.take(j)).len() as int),
    decreases steps.len() - j,
{
    if j < steps.len() {
        lemma_entered_prefix(steps, j + 1);
        assert(steps.take(j + 1).drop_last() =~= steps.take(j));
        let a = entered(steps.take(j));
        let b = entered(steps.take(j + 1));
        assert(a =~= b.take(a.len() as int));
        assert(a =~= entered(steps).take(a.len() as int));
    } else {
        assert(steps.take(j) =~= steps);
    }
}

proof fn lemma_visits_list_len(nodes: Seq<WidgetNode>)
    ensures
        visits_list(nodes).len() == 2 * list_size(nodes),
    decreases nodes,
{
    if nodes.len() > 0 {
        lemma_visits_list_len(nodes.drop_last());
        lemma_visits_len(nodes.last());
    }
}

proof fn lemma_visits_len(node: WidgetNode)
    ensures
        visits(node).len() == 2 * tree_size(node),
    decreases node,
{
    lemma_visits_list_len(node.children@);
}

/// A walk enters the root first and leaves it last, and enters and leaves
/// each widget of the tree once: two steps per widget.
pub proof fn law_walk_encloses_tree(root: WidgetNode)
    ensures
        visits(root).len() == 2 * tree_size(root),
        visits(root)[0] == Visit::Enter(root.id),
        visits(root).last() == Visit::Leave(root.id),
{
    lemma_visits_len(root);
}

/// Widgets laid out in a column, top to bottom.
pub struct Column<W> {
    pub children: Vec<W>,
}

/// A column of the given widgets.
pub fn column<W>(widgets: Vec<W>) -> (r: Column<W>)
    ensures
        r.children@ == widgets@,
{
    Column { children: widgets }
}

/// Widgets laid out in a row, left to right.
pub struct Row<W> {
    pub children: Vec<W>,
}

/// A row of the given widgets.
pub fn row<W>(widgets: Vec<W>) -> (r: Row<W>)
    ensures
        r.children@ == widgets@,
{
    Row { children: widgets }
}

/// A widget with a handler that sees every event before the widget does.
pub struct EventHandler<T, F> {
    pub child: T,
    pub handler: F,
}

/// Extra methods of every widget.
pub trait WidgetExt: Sized {
    /// Wraps the widget so that `handler` sees its events first.
    fn handle_events<F>(self, handler: F) -> (r: EventHandler<Self, F>)
        ensures
            r.child == self,
            r.handler == handler,
    {
        EventHandler { child: self, handler }
    }
}

impl<T> WidgetExt for T {

}

} // verus!
