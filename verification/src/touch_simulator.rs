//! The touch simulator of the debug overlay: with the mouse, the developer
//! places, drags and removes simulated touch points, and the simulator turns
//! that into touch events.
use vstd::prelude::*;
use crate::window::MouseButton;

verus! {

/// A mouse event as the simulator sees it; positions are of any type.
pub enum MouseInput<P> {
    Down { position: P, button: MouseButton },
    Move { position: P },
    Up,
    /// Any event that is not a mouse event.
    Other,
}

/// A touch event, with the positions of all current touches.
#[derive(Debug)]
pub enum TouchEvent<P> {
    TouchStart(Vec<P>),
    TouchMove(Vec<P>),
    TouchEnd(Vec<P>),
}

/// The touches of a touch event, as a sequence.
pub open spec fn touch_event_view<P>(e: TouchEvent<P>) -> (u8, Seq<P>) {
    match e {
        TouchEvent::TouchStart(t) => (0, t@),
        TouchEvent::TouchMove(t) => (1, t@),
        TouchEvent::TouchEnd(t) => (2, t@),
    }
}

/// The simulated touches, and which one the mouse holds.
pub struct TouchSimulator<P> {
    touches: Vec<P>,
    holding: Option<usize>,
}

/// The abstract state of a simulator: the touch positions and the held index.
pub ghost struct SimState<P> {
    pub touches: Seq<P>,
    pub holding: Option<usize>,
}

/// What the simulator answers to an event: `None` lets the event through
/// to the game; `Some` replaces it with the given touch events, each given
/// by its kind (0 start, 1 move, 2 end) and touches.
pub ghost enum SimOutput<P> {
    Pass,
    Events(Seq<(u8, Seq<P>)>),
}

/// One step of the simulator. `hit` is the first touch near the position of
/// a button press, if any.
pub open spec fn sim_step<P>(s: SimState<P>, event: MouseInput<P>, hit: Option<usize>) -> (
    SimState<P>,
    SimOutput<P>,
) {
    match event {
        MouseInput::Down { position, button: MouseButton::Left } => match hit {
            Some(i) => (SimState { holding: Some(i), ..s }, SimOutput::Pass),
            None => {
                let t = s.touches.push(position);
                (
                    SimState { touches: t, holding: Some(s.touches.len() as usize) },
                    SimOutput::Events(seq![(0u8, t)]),
                )
            },
        },
        MouseInput::Move { position } => match s.holding {
            Some(i) => {
                let t = s.touches.update(i as int, position);
                (SimState { touches: t, ..s }, SimOutput::Events(seq![(1u8, t)]))
            },
            None => (s, SimOutput::Events(seq![])),
        },
        MouseInput::Down { position: _, button: MouseButton::Right } => match hit {
            Some(i) => {
                let t = s.touches.remove(i as int);
                (SimState { touches: t, ..s }, SimOutput::Events(seq![(2u8, t)]))
            },
            None => (s, SimOutput::Events(seq![])),
        },
        MouseInput::Down { .. } => (s, SimOutput::Events(seq![])),
        MouseInput::Up => (SimState { holding: None, ..s }, SimOutput::Events(seq![])),
        MouseInput::Other => (s, SimOutput::Pass),
    }
}

/// The answer of the simulator as its abstract output.
pub open spec fn output_view<P>(r: Option<Vec<TouchEvent<P>>>) -> SimOutput<P> {
    match r {
        None => SimOutput::Pass,
        Some(v) => SimOutput::Events(v@.map_values(|e: TouchEvent<P>| touch_event_view(e))),
    }
}

/// What a valid `hit` is for an event: an index of a current touch, given
/// only for button presses.
pub open spec fn valid_hit<P>(s: SimState<P>, event: MouseInput<P>, hit: Option<usize>) -> bool {
    hit matches Some(i) ==> (event is Down && i < s.touches.len())
}

fn copy_touches<P: Copy>(v: &Vec<P>) -> (r: Vec<P>)
    ensures
        r@ == v@,
{
    let mut r: Vec<P> = Vec::new();
    let mut i: usize = 0;
    while i < v.len()
        invariant
            i <= v@.len(),
            r@ == v@.take(i as int),
        decreases v@.len() - i,
    {
        let p = v[i];
        r.push(p);
        i = i + 1;
        assert(r@ =~= v@.take(i as int));
    }
    assert(v@.take(i as int) =~= v@);
    r
}

fn single<P>(e: TouchEvent<P>) -> (r: Option<Vec<TouchEvent<P>>>)
    ensures
        output_view(r) == SimOutput::Events(seq![touch_event_view(e)]),
{
    let mut v: Vec<TouchEvent<P>> = Vec::new();
    v.push(e);
    proof {
        assert(v@.map_values(|e: TouchEvent<P>| touch_event_view(e)) =~= seq![touch_event_view(e)]);
    }
    Some(v)
}

fn no_events<P>() -> (r: Option<Vec<TouchEvent<P>>>)
    ensures
        output_view(r) == SimOutput::<P>::Events(seq![]),
{
    let v: Vec<TouchEvent<P>> = Vec::new();
    proof {
        assert(v@.map_values(|e: TouchEvent<P>| touch_event_view(e)) =~= Seq::<(u8, Seq<P>)>::empty());
    }
    Some(v)
}

impl<P: Copy> TouchSimulator<P> {
    pub closed spec fn state(&self) -> SimState<P> {
        SimState { touches: self.touches@, holding: self.holding }
    }

    /// No touches, nothing held.
    pub fn new() -> (r: Self)
        ensures
            r.state() == (SimState::<P> { touches: seq![], holding: None }),
    {
        TouchSimulator { touches: Vec::new(), holding: None }
    }

    /// The current touches.
    pub fn touches(&self) -> (r: &Vec<P>)
        ensures
            r@ == self.state().touches,
    {
        &self.touches
    }

    /// The index of the touch that the mouse holds, if any.
    pub fn holding(&self) -> (r: Option<usize>)
        ensures
            r == self.state().holding,
    {
        self.holding
    }

    /// Handles a mouse event; see `sim_step`.
    pub fn handle_event(&mut self, event: MouseInput<P>, hit: Option<usize>) -> (r: Option<
        Vec<TouchEvent<P>>,
    >)
        requires
            valid_hit(old(self).state(), event, hit),
            event is Move ==> (old(self).state().holding matches Some(i) ==> i < old(
                self,
            ).state().touches.len()),
        ensures
            (final(self).state(), output_view(r)) == sim_step(old(self).state(), event, hit),
    {
        match event {
            MouseInput::Down { position, button: MouseButton::Left } => match hit {
                Some(i) => {
                    self.holding = Some(i);
                    None
                },
                None => {
                    self.holding = Some(self.touches.len());
                    self.touches.push(position);
                    single(TouchEvent::TouchStart(copy_touches(&self.touches)))
                },
            },
            MouseInput::Move { position } => match self.holding {
                Some(i) => {
                    self.touches.set(i, position);
                    single(TouchEvent::TouchMove(copy_touches(&self.touches)))
                },
                None => no_events(),
            },
            MouseInput::Down { position: _, button: MouseButton::Right } => match hit {
                Some(i) => {
                    let _ = self.touches.remove(i);
                    single(TouchEvent::TouchEnd(copy_touches(&self.touches)))
                },
                None => no_events(),
            },
            MouseInput::Down { .. } => no_events(),
            MouseInput::Up => {
                self.holding = None;
                no_events()
            },
            MouseInput::Other => None,
        }
    }
}

/// A left press where no touch is starts a touch there, holds it, and tells
/// the game with a touch start that lists it last.
pub proof fn law_press_starts_touch<P>(s: SimState<P>, position: P)
    ensures
        ({
            let (s2, out) = sim_step(
                s,
                MouseInput::Down { position, button: MouseButton::Left },
                None,
            );
            &&& s2.touches == s.touches.push(position)
            &&& s2.holding == Some(s.touches.len() as usize)
            &&& out == SimOutput::Events(seq![(0u8, s2.touches)])
        }),
{
}

/// Dragging moves only the held touch; releasing the mouse lets go of it
/// and leaves the touches where they are.
pub proof fn law_drag_then_release<P>(s: SimState<P>, position: P)
    requires
        s.holding matches Some(i) && i < s.touches.len(),
    ensures
        ({
            let (s2, _) = sim_step(s, MouseInput::Move { position }, None);
            let (s3, out) = sim_step(s2, MouseInput::Up, None);
            &&& s2.touches.len() == s.touches.len()
            &&& s2.touches[s.holding->0 as int] == position
            &&& forall|j: int|
                0 <= j < s.touches.len() && j != s.holding->0 ==> s2.touches[j] == s.touches[j]
            &&& s3.touches == s2.touches
            &&& s3.holding is None
            &&& out == SimOutput::<P>::Events(seq![])
        }),
{
}

/// A right press on a touch that was just placed removes it again.
pub proof fn law_place_then_remove<P>(s: SimState<P>, position: P)
    requires
        s.touches.len() < usize::MAX,
    ensures
        ({
            let (s2, _) = sim_step(
                s,
                MouseInput::Down { position, button: MouseButton::Left },
                None,
            );
            let (s3, _) = sim_step(
                s2,
                MouseInput::Down { position, button: MouseButton::Right },
                Some(s.touches.len() as usize),
            );
            s3.touches == s.touches
        }),
{
    let t = s.touches.push(position);
    assert(t.remove(s.touches.len() as int) =~= s.touches);
}

/// A right press on touch `i` removes exactly that touch, whichever it is:
/// the touches before it stay where they were, those after it move down by
/// one, the held touch is unchanged, and the game gets one touch end that
/// lists the remaining touches.
pub proof fn law_right_press_removes_hit_touch<P>(s: SimState<P>, position: P, i: usize)
    requires
        i < s.touches.len(),
    ensures
        ({
            let (s2, out) = sim_step(
                s,
                MouseInput::Down { position, button: MouseButton::Right },
                Some(i),
            );
            &&& s2.touches.len() == s.touches.len() - 1
            &&& forall|j: int| 0 <= j < i ==> s2.touches[j] == s.touches[j]
            &&& forall|j: int| i <= j < s2.touches.len() ==> s2.touches[j] == s.touches[j + 1]
            &&& s2.holding == s.holding
            &&& out == SimOutput::Events(seq![(2u8, s2.touches)])
        }),
{
}

} // verus!
