//! A transition between named states, each giving target values for the
//! properties; every property keeps its own curve and duration whichever
//! states it moves between.
use crate::curves::Curve;
use crate::playback::Playback;
use crate::tween::{animates, Tween};
use crate::value::{kind_of, Value};
use crate::value_based::{self, entries_ok, requested, Transition as Runner};
use vstd::prelude::*;

verus! {

/// The target values of one state, by property name.
pub struct State {
    pub properties: Vec<(String, Value)>,
}

/// The state named `name` (the last, if two share the name).
pub open spec fn state_named(states: Seq<(String, State)>, name: Seq<char>) -> Option<State>
    decreases states.len(),
{
    if states.len() == 0 {
        None
    } else if states.last().0@ == name {
        Some(states.last().1)
    } else {
        state_named(states.drop_last(), name)
    }
}

/// The value that state `state` gives property `name`.
pub open spec fn state_value(states: Seq<(String, State)>, state: Seq<char>, name: Seq<char>) -> Option<
    Value,
> {
    match state_named(states, state) {
        Some(st) => requested(st.properties@, name),
        None => None,
    }
}

fn find_state(states: &Vec<(String, State)>, name: &String) -> (r: Option<usize>)
    ensures
        match r {
            Some(j) => j < states@.len() && state_named(states@, name@) == Some(states@[j as int].1),
            None => state_named(states@, name@) is None,
        },
{
    let mut i: usize = states.len();
    assert(states@.subrange(0, states@.len() as int) =~= states@);
    while i > 0
        invariant
            i <= states@.len(),
            state_named(states@, name@) == state_named(states@.subrange(0, i as int), name@),
        decreases i,
    {
        let ghost pre = states@.subrange(0, i as int);
        assert(pre.drop_last() =~= states@.subrange(0, i - 1));
        if states[i - 1].0.eq(name) {
            return Some(i - 1);
        }
        i = i - 1;
    }
    assert(states@.subrange(0, 0).len() == 0);
    None
}

impl State {
    pub fn new() -> (s: State)
        ensures
            s.properties@.len() == 0,
    {
        State { properties: Vec::new() }
    }

    /// Gives property `name` the target `value` in this state.
    pub fn property(self, name: String, value: Value) -> (s: State)
        ensures
            s.properties@ == self.properties@.push((name, value)),
    {
        let mut properties = self.properties;
        properties.push((name, value));
        State { properties }
    }
}

/// No property declared after the `i`th, before `n`, has its name.
pub open spec fn last_declared(props: Seq<(String, u64, Curve)>, i: int, n: int) -> bool {
    forall|j: int| i < j < n ==> #[trigger] props[j].0@ != props[i].0@
}

/// Declares the properties, with their curves and durations, and the
/// states of a [`Transition`].
pub struct TransitionBuilder {
    pub init: String,
    pub properties: Vec<(String, u64, Curve)>,
    pub states: Vec<(String, State)>,
}

impl TransitionBuilder {
    /// Every property has a value in the initial state, of a kind its curve
    /// and duration can animate.
    pub open spec fn ready(self) -> bool {
        forall|i: int|
            0 <= i < self.properties@.len() ==> match state_value(
                self.states@,
                self.init@,
                #[trigger] self.properties@[i].0@,
            ) {
                Some(v) => animates(self.properties@[i].2, self.properties@[i].1 as int, kind_of(v)),
                None => false,
            }
    }

    /// The tween built for the `i`th declared property: resting at its
    /// value in the initial state, with the declared curve and duration.
    pub open spec fn built_tween(self, i: int) -> Tween {
        let v = state_value(self.states@, self.init@, self.properties@[i].0@).unwrap();
        Tween::new_spec(v, v).with_curve(self.properties@[i].2).with_duration(
            self.properties@[i].1,
        )
    }

    pub fn new(init: String) -> (b: TransitionBuilder)
        ensures
            b.init == init,
            b.properties@.len() == 0,
            b.states@.len() == 0,
    {
        TransitionBuilder { init, properties: Vec::new(), states: Vec::new() }
    }

    /// Declares property `name`, moved with `curve` over `duration`
    /// milliseconds.
    pub fn property(self, name: String, duration: u64, curve: Curve) -> (b: TransitionBuilder)
        ensures
            b.init == self.init,
            b.states == self.states,
            b.properties@ == self.properties@.push((name, duration, curve)),
    {
        let mut properties = self.properties;
        properties.push((name, duration, curve));
        TransitionBuilder { init: self.init, properties, states: self.states }
    }

    /// Declares the state `name`.
    pub fn state(self, name: String, state: State) -> (b: TransitionBuilder)
        ensures
            b.init == self.init,
            b.properties == self.properties,
            b.states@ == self.states@.push((name, state)),
    {
        let mut states = self.states;
        states.push((name, state));
        TransitionBuilder { init: self.init, properties: self.properties, states }
    }

    /// A resting transition with every property at its value in the
    /// initial state, in the order the properties were first declared.
    pub fn build(self) -> (t: Transition)
        requires
            self.ready(),
        ensures
            t.wf(),
            t.init == self.init,
            t.states == self.states,
            t.runner.playback == Playback::new_spec(),
            t.runner.participants@.len() == 0,
            forall|i: int|
                0 <= i < self.properties@.len() ==> #[trigger] t.runner.context.tweens.contains(
                    self.properties@[i].0@,
                ),
            forall|i: int|
                0 <= i < self.properties@.len() && last_declared(
                    self.properties@,
                    i,
                    self.properties@.len() as int,
                ) ==> #[trigger] t.runner.tween_of(self.properties@[i].0@) == self.built_tween(i),
    {
        let mut context = value_based::Context::new();
        let ghost props = self.properties@;
        let mut i: usize = 0;
        let init_state = find_state(&self.states, &self.init);
        while i < self.properties.len()
            invariant
                i <= props.len(),
                props == self.properties@,
                self.ready(),
                context.wf(),
                match init_state {
                    Some(j) => j < self.states@.len() && state_named(self.states@, self.init@) == Some(
                        self.states@[j as int].1,
                    ),
                    None => state_named(self.states@, self.init@) is None,
                },
                forall|k: int| 0 <= k < i ==> #[trigger] context.tweens.contains(props[k].0@),
                forall|k: int|
                    0 <= k < i && last_declared(props, k, i as int) ==> #[trigger] context.tweens.tween_of(
                        props[k].0@,
                    ) == self.built_tween(k),
            decreases props.len() - i,
        {
            let (name, duration, curve) = &self.properties[i];
            assert(state_value(self.states@, self.init@, props[i as int].0@) is Some);
            let j: usize = match init_state {
                Some(j) => j,
                None => 0,
            };
            let value: Value = match value_based::lookup(&self.states[j].1.properties, name) {
                Some(k) => self.states[j].1.properties[k].1.clone(),
                None => Value::Number(0),
            };
            let ghost before = context.tweens;
            context.add_tween(name.clone(), value, *curve, *duration);
            proof {
                assert forall|k: int| 0 <= k < i + 1 implies #[trigger] context.tweens.contains(
                    props[k].0@,
                ) by {
                    if k < i {
                        assert(before.contains(props[k].0@));
                    }
                }
                assert forall|k: int|
                    0 <= k < i + 1 && last_declared(props, k, i + 1) implies #[trigger] context.tweens.tween_of(
                    props[k].0@,
                ) == self.built_tween(k) by {
                    if k < i {
                        assert(props[i as int].0@ != props[k].0@);
                        assert(last_declared(props, k, i as int));
                        assert(before.contains(props[k].0@));
                    }
                }
            }
            i = i + 1;
        }
        Transition {
            init: self.init,
            states: self.states,
            runner: Runner::new(context),
        }
    }
}

/// The states, and the properties added one by one at their values in the
/// initial state.
pub struct Context {
    pub init: String,
    pub states: Vec<(String, State)>,
    pub tweens: value_based::Context,
}

impl Context {
    pub open spec fn wf(self) -> bool {
        self.tweens.wf()
    }

    pub fn new(init: String, states: Vec<(String, State)>) -> (c: Context)
        ensures
            c.wf(),
            c.init == init,
            c.states == states,
            c.tweens.tweens.entries().len() == 0,
    {
        Context { init, states, tweens: value_based::Context::new() }
    }

    /// Adds property `key`, resting at its value in the initial state,
    /// moved with `curve` over `duration` milliseconds.
    pub fn add_tween(&mut self, key: String, curve: Curve, duration: u64)
        requires
            old(self).wf(),
            match state_value(old(self).states@, old(self).init@, key@) {
                Some(v) => animates(curve, duration as int, kind_of(v)),
                None => false,
            },
        ensures
            final(self).wf(),
            final(self).init == old(self).init,
            final(self).states == old(self).states,
            final(self).tweens.tweens.contains(key@),
            final(self).tweens.tweens.tween_of(key@) == ({
                let v = state_value(old(self).states@, old(self).init@, key@).unwrap();
                Tween::new_spec(v, v).with_curve(curve).with_duration(duration)
            }),
            forall|other: Seq<char>|
                other != key@ && old(self).tweens.tweens.contains(other) ==> #[trigger] final(self).tweens.tweens.tween_of(other)
                    == old(self).tweens.tweens.tween_of(other),
    {
        let j: usize = match find_state(&self.states, &self.init) {
            Some(j) => j,
            None => 0,
        };
        let value: Value = match value_based::lookup(&self.states[j].1.properties, &key) {
            Some(k) => self.states[j].1.properties[k].1.clone(),
            None => Value::Number(0),
        };
        let ghost before = self.tweens.tweens;
        proof {
            crate::tween_set::lemma_position_from(before.entries(), key@, 0);
        }
        self.tweens.add_tween(key, value, curve, duration);
        proof {
            crate::tween_set::lemma_position_from(self.tweens.tweens.entries(), key@, 0);
        }
    }
}

/// Property values moving between named states.
pub struct Transition {
    pub init: String,
    pub states: Vec<(String, State)>,
    pub runner: Runner,
}

impl Transition {
    pub open spec fn wf(self) -> bool {
        self.runner.wf()
    }

    /// A resting transition over the properties of `context`.
    pub fn from_context(context: Context) -> (t: Transition)
        requires
            context.wf(),
        ensures
            t.wf(),
            t.init == context.init,
            t.states == context.states,
            t.runner.context == context.tweens,
            t.runner.playback == Playback::new_spec(),
    {
        Transition { init: context.init, states: context.states, runner: Runner::new(context.tweens) }
    }

    pub fn builder(init: String) -> (b: TransitionBuilder)
        ensures
            b.init == init,
            b.properties@.len() == 0,
            b.states@.len() == 0,
    {
        TransitionBuilder::new(init)
    }

    /// The current value of property `key`.
    pub fn get(&self, key: &str) -> (v: Value)
        requires
            self.runner.context.tweens.contains(key@),
        ensures
            v == self.runner.tween_of(key@).value,
    {
        self.runner.get(key)
    }

    pub fn is_playing(&self) -> (r: bool)
        ensures
            r == self.runner.playback.running,
    {
        self.runner.is_playing()
    }

    pub fn peek_has_run_yet(&self) -> (r: bool)
        ensures
            r == self.runner.playback.has_run_yet,
    {
        self.runner.peek_has_run_yet()
    }

    /// Redirects every property that state `state` gives a value towards
    /// that value, from where it stands, and runs all properties; an
    /// unknown state redirects none. Returns the token of the new run,
    /// which cancels any run before it.
    pub fn play(&mut self, state: &str) -> (token: u64)
        requires
            old(self).wf(),
            old(self).runner.playback.generation < u64::MAX,
            forall|i: int|
                0 <= i < old(self).runner.entries().len() ==> match state_value(
                    old(self).states@,
                    state@,
                    #[trigger] old(self).runner.entries()[i].name@,
                ) {
                    Some(v) => kind_of(v) == kind_of(old(self).runner.entries()[i].tween.value),
                    None => true,
                },
        ensures
            final(self).wf(),
            final(self).init == old(self).init,
            final(self).states == old(self).states,
            final(self).runner.entries() == match state_named(old(self).states@, state@) {
                Some(st) => value_based::redirected_entries(
                    old(self).runner.entries(),
                    st.properties@,
                ),
                None => old(self).runner.entries(),
            },
            final(self).runner.playback == old(self).runner.playback.started(),
            token == final(self).runner.playback.generation,
            final(self).runner.participants@ == Seq::new(
                old(self).runner.entries().len(),
                |i: int| i as usize,
            ),
    {
        let key: String = state.to_owned();
        match find_state(&self.states, &key) {
            Some(j) => {
                self.runner.redirect_named(&self.states[j].1.properties);
            },
            None => {},
        }
        self.runner.take_all();
        self.runner.playback.start()
    }

    /// One clock tick; see [`value_based::Transition::tick`].
    pub fn tick(&mut self, token: u64, delta: u64) -> (more: bool)
        requires
            old(self).wf(),
        ensures
            final(self).wf(),
            final(self).init == old(self).init,
            final(self).states == old(self).states,
            !old(self).runner.playback.admits(token) ==> *final(self) == *old(self) && !more,
            old(self).runner.playback.admits(token) ==> {
                let time = old(self).runner.playback.ticked(token, delta).elapsed as int;
                let entries = value_based::advanced_entries(
                    old(self).runner.entries(),
                    old(self).runner.participants@,
                    time,
                );
                &&& final(self).runner.entries() == entries
                &&& final(self).runner.participants@ == old(self).runner.participants@
                &&& more == !value_based::all_done(entries, old(self).runner.participants@, time)
                &&& final(self).runner.playback == if more {
                    old(self).runner.playback.ticked(token, delta)
                } else {
                    old(self).runner.playback.ticked(token, delta).finished(token)
                }
            },
    {
        self.runner.tick(token, delta)
    }

    pub fn cancel(&mut self)
        ensures
            final(self).runner.context == old(self).runner.context,
            final(self).runner.playback == (Playback { active: None, ..old(self).runner.playback }),
    {
        self.runner.cancel();
    }
}

} // verus!
