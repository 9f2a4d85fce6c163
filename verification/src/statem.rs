//! A state machine that knows, for each state, what it may be left for and
//! which hooks go with entering and leaving it.
//!
//! The machine decides and keeps the books; it never runs a hook. `fire`
//! hands the hooks of a transition to the caller, who runs them.

use vstd::prelude::*;
use std::collections::HashMap;
use std::hash::Hash;
use vstd::laws_eq::obeys_concrete_eq;
use vstd::std_specs::cmp::PartialEqSpec;
use vstd::std_specs::hash::obeys_key_model;

verus! {

/// What the machine knows of one state.
pub struct State<S, H> {
    entry: Vec<H>,
    permit: Vec<S>,
    exit: Vec<H>,
}

/// What the machine knows of one state, as a plain value.
pub struct StateView<S, H> {
    /// The hooks that go with entering the state, oldest first.
    pub entry: Seq<H>,
    /// The states that the state may be left for.
    pub permit: Seq<S>,
    /// The hooks that go with leaving the state, oldest first.
    pub exit: Seq<H>,
}

impl<S, H> View for State<S, H> {
    type V = StateView<S, H>;

    closed spec fn view(&self) -> StateView<S, H> {
        StateView { entry: self.entry@, permit: self.permit@, exit: self.exit@ }
    }
}

impl<S, H> StateView<S, H> {
    /// A state of which nothing is known yet.
    pub open spec fn blank() -> Self {
        StateView { entry: Seq::empty(), permit: Seq::empty(), exit: Seq::empty() }
    }
}

impl<S, H> Default for State<S, H> {
    fn default() -> (r: Self)
        ensures
            r@ == StateView::<S, H>::blank(),
    {
        State { entry: Vec::new(), permit: Vec::new(), exit: Vec::new() }
    }
}

/// A state machine over the states `S`, with hooks of type `H`.
#[verifier::reject_recursive_types(S)]
pub struct StateMachine<S: Sized + Hash + Eq + Copy, H: Copy> {
    m: HashMap<S, State<S, H>>,
    s: S,
}

/// A state machine as a plain value.
#[verifier::reject_recursive_types(S)]
pub struct StateMachineView<S, H> {
    /// The state that the machine is in.
    pub current: S,
    /// What is known of each state that was ever named.
    pub states: Map<S, StateView<S, H>>,
}

impl<S, H> StateMachineView<S, H> {
    /// What is known of `state`, and nothing where it was never named.
    pub open spec fn known(self, state: S) -> StateView<S, H> {
        if self.states.dom().contains(state) {
            self.states[state]
        } else {
            StateView::blank()
        }
    }

    /// Whether the machine may go to `state`: both the state it is in and
    /// `state` were named, and the first may be left for the second.
    pub open spec fn permits(self, state: S) -> bool {
        &&& self.states.dom().contains(self.current)
        &&& self.states.dom().contains(state)
        &&& self.states[self.current].permit.contains(state)
    }
}

/// What goes with one transition: the hooks for the caller to run, those of
/// `exit` first, each with `to`, then those of `entry`, each with `from`.
pub struct Transition<S, H> {
    /// The state that was left.
    pub from: S,
    /// The state that was entered.
    pub to: S,
    /// The hooks of the state that was left.
    pub exit: Vec<H>,
    /// The hooks of the state that was entered.
    pub entry: Vec<H>,
}

/// Whether the type `S` can name states: its equality and its hash are those
/// of plain values.
pub open spec fn names_states<S: PartialEq>() -> bool {
    obeys_key_model::<S>() && obeys_concrete_eq::<S>()
}

fn copy_all<H: Copy>(v: &Vec<H>) -> (r: Vec<H>)
    ensures
        r@ == v@,
{
    let mut r: Vec<H> = Vec::new();
    let mut i: usize = 0;
    while i < v.len()
        invariant
            i <= v.len(),
            r@ == v@.take(i as int),
        decreases v.len() - i,
    {
        r.push(v[i]);
        assert(r@ =~= v@.take(i + 1));
        i = i + 1;
    }
    assert(v@.take(v.len() as int) =~= v@);
    r
}

fn holds<S: Eq + Copy>(v: &Vec<S>, state: S) -> (r: bool)
    requires
        obeys_concrete_eq::<S>(),
    ensures
        r == v@.contains(state),
{
    let mut i: usize = 0;
    while i < v.len()
        invariant
            i <= v.len(),
            obeys_concrete_eq::<S>(),
            forall|j: int| 0 <= j < i ==> v@[j] != state,
        decreases v.len() - i,
    {
        proof {
            reveal(obeys_concrete_eq);
            assert(v@[i as int].eq_spec(&state) <==> (v@[i as int] == state));
        }
        if v[i] == state {
            assert(v@[i as int] == state);
            return true;
        }
        i = i + 1;
    }
    false
}

impl<S: Sized + Hash + Eq + Copy, H: Copy> View for StateMachine<S, H> {
    type V = StateMachineView<S, H>;

    closed spec fn view(&self) -> StateMachineView<S, H> {
        StateMachineView { current: self.s, states: self.m@.map_values(|st: State<S, H>| st@) }
    }
}

impl<S: Sized + Hash + Eq + Copy, H: Copy> StateMachine<S, H> {
    /// A machine in the state `init`, which knows of no state.
    pub fn new(init: S) -> (r: Self)
        ensures
            r@.current == init,
            r@.states == Map::<S, StateView<S, H>>::empty(),
    {
        let r = StateMachine { m: HashMap::new(), s: init };
        assert(r@.states =~= Map::<S, StateView<S, H>>::empty());
        r
    }

    /// The state that the machine is in.
    pub fn current(&self) -> (s: S)
        ensures
            s == self@.current,
    {
        self.s
    }

    /// Names `state`, if it was not named yet.
    fn lazy_init_state(&mut self, state: &S)
        requires
            names_states::<S>(),
        ensures
            final(self)@.current == old(self)@.current,
            final(self)@.states == old(self)@.states.insert(*state, old(self)@.known(*state)),
            final(self).m@.dom().contains(*state),
    {
        if !self.m.contains_key(state) {
            self.m.insert(*state, State::default());
        }
        assert(self@.states =~= old(self)@.states.insert(*state, old(self)@.known(*state)));
    }

    /// Puts what is known of `state` in place of what was.
    fn replace(&mut self, state: S, st: State<S, H>)
        requires
            names_states::<S>(),
        ensures
            final(self)@.current == old(self)@.current,
            final(self)@.states == old(self)@.states.insert(state, st@),
    {
        self.m.insert(state, st);
        assert(self@.states =~= old(self)@.states.insert(state, st@));
    }

    /// Takes what is known of `state` out of the machine.
    fn take(&mut self, state: &S) -> (st: State<S, H>)
        requires
            names_states::<S>(),
        ensures
            final(self)@.current == old(self)@.current,
            final(self)@.states == old(self)@.states.remove(*state),
            st@ == old(self)@.known(*state),
    {
        self.lazy_init_state(state);
        let ghost named = self@;
        let ghost named_m = self.m@;
        assert(named.states[*state] == self.m@[*state]@);
        let st = match self.m.remove(state) {
            Some(st) => st,
            None => State::default(),
        };
        assert(self.m@ == named_m.remove(*state));
        assert(self@.states =~= named.states.remove(*state));
        assert(named.states.remove(*state) =~= old(self)@.states.remove(*state));
        st
    }

    /// Adds a hook that goes with entering `state`.
    pub fn entry(&mut self, state: S, on_entry: H)
        requires
            names_states::<S>(),
        ensures
            final(self)@.current == old(self)@.current,
            final(self)@.states == old(self)@.states.insert(
                state,
                (StateView {
                    entry: old(self)@.known(state).entry.push(on_entry),
                    ..old(self)@.known(state)
                }),
            ),
    {
        let ghost before = self@;
        let mut st = self.take(&state);
        st.entry.push(on_entry);
        self.replace(state, st);
        assert(self@.states =~= before.states.insert(
            state,
            (StateView { entry: before.known(state).entry.push(on_entry), ..before.known(state) }),
        ));
    }

    /// Adds the states `next` to those that `prev` may be left for.
    pub fn permit(&mut self, prev: S, next: Vec<S>)
        requires
            names_states::<S>(),
        ensures
            final(self)@.current == old(self)@.current,
            final(self)@.states == old(self)@.states.insert(
                prev,
                (StateView {
                    permit: old(self)@.known(prev).permit + next@,
                    ..old(self)@.known(prev)
                }),
            ),
    {
        let ghost before = self@;
        let ghost added = next@;
        let mut st = self.take(&prev);
        let mut next = next;
        st.permit.append(&mut next);
        self.replace(prev, st);
        assert(self@.states =~= before.states.insert(
            prev,
            (StateView { permit: before.known(prev).permit + added, ..before.known(prev) }),
        ));
    }

    /// Adds a hook that goes with leaving `state`.
    pub fn exit(&mut self, state: S, on_exit: H)
        requires
            names_states::<S>(),
        ensures
            final(self)@.current == old(self)@.current,
            final(self)@.states == old(self)@.states.insert(
                state,
                (StateView {
                    exit: old(self)@.known(state).exit.push(on_exit),
                    ..old(self)@.known(state)
                }),
            ),
    {
        let ghost before = self@;
        let mut st = self.take(&state);
        st.exit.push(on_exit);
        self.replace(state, st);
        assert(self@.states =~= before.states.insert(
            state,
            (StateView { exit: before.known(state).exit.push(on_exit), ..before.known(state) }),
        ));
    }

    /// Whether the machine may go to `state`.
    pub fn can_fire(&self, state: S) -> (b: bool)
        requires
            names_states::<S>(),
        ensures
            b == self@.permits(state),
    {
        match self.m.get(&self.s) {
            Some(old) => {
                if self.m.contains_key(&state) {
                    holds(&old.permit, state)
                } else {
                    false
                }
            },
            None => false,
        }
    }

    /// Goes to `state` and hands out the hooks of the transition. What is
    /// known of the states stays as it is.
    pub fn fire(&mut self, state: S) -> (t: Transition<S, H>)
        requires
            names_states::<S>(),
            old(self)@.permits(state),
        ensures
            final(self)@.current == state,
            final(self)@.states == old(self)@.states,
            t.from == old(self)@.current,
            t.to == state,
            t.exit@ == old(self)@.states[old(self)@.current].exit,
            t.entry@ == old(self)@.states[state].entry,
    {
        let old_state = self.s;
        let exit = match self.m.get(&old_state) {
            Some(old) => copy_all(&old.exit),
            None => Vec::new(),
        };
        let entry = match self.m.get(&state) {
            Some(v) => copy_all(&v.entry),
            None => Vec::new(),
        };
        self.s = state;
        Transition { from: old_state, to: state, exit, entry }
    }
}

} // verus!
