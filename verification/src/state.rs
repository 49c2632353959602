//! The state stack that runs a game: the state on top gets the updates,
//! and asks for transitions that push, pop or replace states.
use vstd::prelude::*;

verus! {

/// A transition between states.
pub enum Transition<S> {
    /// Pops (removes) the current state from the state stack.
    Pop,
    /// Replaces the current state with another state.
    Switch(S),
    /// Pushes a new state on the state stack.
    Push(S),
}

/// A stack of states; the last one is the current state.
pub struct StateManager<S> {
    stack: Vec<S>,
}

impl<S> View for StateManager<S> {
    type V = Seq<S>;

    closed spec fn view(&self) -> Seq<S> {
        self.stack@
    }
}

/// The stack after a transition.
pub open spec fn after_transition<S>(stack: Seq<S>, t: Transition<S>) -> Seq<S> {
    match t {
        Transition::Pop => if stack.len() > 0 {
            stack.drop_last()
        } else {
            stack
        },
        Transition::Push(s) => stack.push(s),
        Transition::Switch(s) => stack.update(stack.len() - 1, s),
    }
}

impl<S> StateManager<S> {
    /// An empty stack.
    pub fn new() -> (r: Self)
        ensures
            r@ == Seq::<S>::empty(),
    {
        StateManager { stack: Vec::new() }
    }

    /// How many states are on the stack.
    pub fn len(&self) -> (r: usize)
        ensures
            r == self@.len(),
    {
        self.stack.len()
    }

    /// Replaces the current state.
    pub fn switch(&mut self, state: S)
        requires
            old(self)@.len() > 0,
        ensures
            final(self)@ == old(self)@.update(old(self)@.len() - 1, state),
    {
        let last = self.stack.len() - 1;
        self.stack.set(last, state);
    }

    /// Puts a state on top.
    pub fn push(&mut self, state: S)
        ensures
            final(self)@ == old(self)@.push(state),
    {
        self.stack.push(state);
    }

    /// Removes the current state, if there is one.
    pub fn pop(&mut self)
        ensures
            final(self)@ == (if old(self)@.len() > 0 {
                old(self)@.drop_last()
            } else {
                old(self)@
            }),
    {
        let _ = self.stack.pop();
    }

    /// The current state, if there is one.
    pub fn current_state(&mut self) -> (r: Option<&mut S>)
        ensures
            old(self)@.len() == 0 ==> r is None && final(self)@ == old(self)@,
            old(self)@.len() > 0 ==> (r matches Some(s) && *s == old(self)@.last() && final(self)@
                == old(self)@.update(old(self)@.len() - 1, *final(s))),
    {
        let n = self.stack.len();
        if n == 0 {
            None
        } else {
            Some(&mut self.stack[n - 1])
        }
    }

    /// Carries out a transition that the current state asked for.
    pub fn apply_transition(&mut self, transition: Transition<S>)
        requires
            transition is Switch ==> old(self)@.len() > 0,
        ensures
            final(self)@ == after_transition(old(self)@, transition),
    {
        match transition {
            Transition::Pop => self.pop(),
            Transition::Push(state) => self.push(state),
            Transition::Switch(state) => self.switch(state),
        }
    }

    /// The manager asks to be popped once its stack is empty.
    pub fn transition(&self) -> (r: Option<Transition<S>>)
        ensures
            r is Some <==> self@.len() == 0,
            r is Some ==> r matches Some(Transition::Pop),
    {
        if self.stack.len() == 0 {
            Some(Transition::Pop)
        } else {
            None
        }
    }
}

/// Whether the application loop ends: when the root state manager asks to
/// be popped. The root manager asks for nothing else.
pub fn need_to_quit<S>(transition: Option<Transition<S>>) -> (r: bool)
    requires
        transition is None || transition matches Some(Transition::Pop),
    ensures
        r == transition is Some,
{
    match transition {
        None => false,
        Some(_) => true,
    }
}

/// What the main loop does in a frame once the states are updated.
#[derive(Debug, Clone, Copy, PartialEq, Eq, Structural)]
pub struct FrameStep {
    /// Whether to draw the frame.
    pub draw: bool,
    /// Whether the loop ends.
    pub quit: bool,
}

/// The decisions of one frame of the main loop, after the update, for a
/// window of `real_width` by `real_height` pixels and the root state
/// manager's `transition`: draw only where the window has an area (a
/// minimized window has none), and end the loop when the root manager asks
/// to be popped (it asks for nothing else).
pub fn frame_step<S>(real_width: usize, real_height: usize, transition: Option<Transition<S>>) -> (r: FrameStep)
    requires
        transition is None || transition matches Some(Transition::Pop),
    ensures
        r.draw == (real_width != 0 && real_height != 0),
        r.quit == transition is Some,
{
    FrameStep { draw: real_width != 0 && real_height != 0, quit: need_to_quit(transition) }
}

/// A state that draws nothing and never asks for a transition.
pub struct EmptyState;

/// Two states run side by side: both get every update and event; the first
/// one's transition wins.
pub struct CombinedState<A, B>(pub A, pub B);

/// The transition of a combined state: the first state's, if it asks for
/// one, else the second state's.
pub fn combined_transition<S>(first: Option<Transition<S>>, second: Option<Transition<S>>) -> (r: Option<Transition<S>>)
    ensures
        first is Some ==> r == first,
        first is None ==> r == second,
{
    match first {
        Some(t) => Some(t),
        None => second,
    }
}

/// A pushed state is the current one, and popping it brings back the stack
/// as it was.
pub proof fn law_push_then_pop<S>(stack: Seq<S>, state: S)
    ensures
        after_transition(stack, Transition::Push(state)).last() == state,
        after_transition(after_transition(stack, Transition::Push(state)), Transition::Pop)
            == stack,
{
    assert(stack.push(state).drop_last() =~= stack);
}

/// Switching replaces only the current state: the depth and every state
/// below it stay.
pub proof fn law_switch_replaces_current<S>(stack: Seq<S>, state: S)
    requires
        stack.len() > 0,
    ensures
        after_transition(stack, Transition::Switch(state)).len() == stack.len(),
        after_transition(stack, Transition::Switch(state)).last() == state,
        after_transition(stack, Transition::Switch(state)).drop_last() == stack.drop_last(),
{
    assert(stack.update(stack.len() - 1, state).drop_last() =~= stack.drop_last());
}

} // verus!
