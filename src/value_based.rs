//! A transition over named properties, each with its own fixed curve and
//! duration; `play` redirects some of them and runs those.
use crate::curves::Curve;
use crate::playback::Playback;
use crate::tween::{animates, Tween};
use crate::tween_set::{lemma_position_from, position_of, Entry, TweenSet};
use crate::value::{kind_of, Value};
use vstd::prelude::*;

verus! {

/// A tween can be advanced at any time and stays so: its values share a
/// kind that its curve and duration can animate.
pub open spec fn tween_ok(tw: Tween) -> bool {
    &&& tw.of_kind(kind_of(tw.value))
    &&& animates(tw.curve, tw.duration as int, kind_of(tw.value))
}

pub open spec fn entries_ok(entries: Seq<Entry>) -> bool {
    forall|i: int| 0 <= i < entries.len() ==> tween_ok(#[trigger] entries[i].tween)
}

/// The value that `filter` asks of property `name`: its last pair with
/// that name.
pub open spec fn requested(filter: Seq<(String, Value)>, name: Seq<char>) -> Option<Value>
    decreases filter.len(),
{
    if filter.len() == 0 {
        None
    } else if filter.last().0@ == name {
        Some(filter.last().1)
    } else {
        requested(filter.drop_last(), name)
    }
}

/// The indices, in order, of the first `n` entries that `filter` names.
pub open spec fn selected(entries: Seq<Entry>, filter: Seq<(String, Value)>, n: int) -> Seq<usize>
    decreases n,
{
    if n <= 0 {
        Seq::empty()
    } else if requested(filter, entries[n - 1].name@) is Some {
        selected(entries, filter, n - 1).push((n - 1) as usize)
    } else {
        selected(entries, filter, n - 1)
    }
}

/// Entries after `play`: those that `filter` names are redirected.
pub open spec fn redirected_entries(entries: Seq<Entry>, filter: Seq<(String, Value)>) -> Seq<Entry> {
    Seq::new(
        entries.len(),
        |i: int|
            match requested(filter, entries[i].name@) {
                Some(v) => Entry { name: entries[i].name, tween: entries[i].tween.redirected(v) },
                None => entries[i],
            },
    )
}

/// One of the first `n` indices of `s` is `i`.
pub open spec fn listed(s: Seq<usize>, n: int, i: int) -> bool {
    exists|q: int| 0 <= q < n && #[trigger] s[q] as int == i
}

/// Entries after a tick at `time`: the participants advance.
pub open spec fn advanced_entries(entries: Seq<Entry>, participants: Seq<usize>, time: int) -> Seq<
    Entry,
> {
    Seq::new(
        entries.len(),
        |i: int|
            if listed(participants, participants.len() as int, i) {
                Entry {
                    name: entries[i].name,
                    tween: Tween { value: entries[i].tween.value_at(time), ..entries[i].tween },
                }
            } else {
                entries[i]
            },
    )
}

/// Every participant has run its course by `time`.
pub open spec fn all_done(entries: Seq<Entry>, participants: Seq<usize>, time: int) -> bool {
    forall|j: int|
        0 <= j < participants.len() ==> time >= entries[participants[j] as int].tween.delay
            + entries[participants[j] as int].tween.duration
}

pub open spec fn increasing_below(s: Seq<usize>, n: int) -> bool {
    &&& forall|i: int, j: int| 0 <= i < j < s.len() ==> s[i] < s[j]
    &&& forall|i: int| 0 <= i < s.len() ==> s[i] < n
}

/// A run that a tick reports finished leaves every participant at its
/// destination, given each has a duration or has been waited past its
/// delay: the cancelled runs before it wrote nothing, so this is the whole
/// outcome of the last play.
pub proof fn lemma_finished_run_lands(entries: Seq<Entry>, participants: Seq<usize>, time: int)
    requires
        entries_ok(entries),
        increasing_below(participants, entries.len() as int),
        all_done(advanced_entries(entries, participants, time), participants, time),
        forall|j: int|
            0 <= j < participants.len() ==> time > #[trigger] entries[participants[j] as int].tween.delay,
    ensures
        forall|j: int|
            0 <= j < participants.len() ==> #[trigger] advanced_entries(entries, participants, time)[participants[j] as int].tween.value
                == entries[participants[j] as int].tween.destination,
{
    assert forall|j: int| 0 <= j < participants.len() implies #[trigger] advanced_entries(
        entries,
        participants,
        time,
    )[participants[j] as int].tween.value == entries[participants[j] as int].tween.destination by {
        let p = participants[j] as int;
        assert(listed(participants, participants.len() as int, p));
        let tw = entries[p].tween;
        assert(tween_ok(tw));
        crate::tween::lemma_kind_kept(tw, kind_of(tw.value), time);
        assert(time >= advanced_entries(entries, participants, time)[p].tween.delay
            + advanced_entries(entries, participants, time)[p].tween.duration);
        crate::tween::lemma_tween_settles(tw, time);
    }
}

/// Finds the value `filter` asks of `name`.
pub(crate) fn lookup(filter: &Vec<(String, Value)>, name: &String) -> (r: Option<usize>)
    ensures
        match r {
            Some(j) => j < filter@.len() && requested(filter@, name@) == Some(filter@[j as int].1),
            None => requested(filter@, name@) is None,
        },
{
    let mut i: usize = filter.len();
    assert(filter@.subrange(0, filter@.len() as int) =~= filter@);
    while i > 0
        invariant
            i <= filter@.len(),
            requested(filter@, name@) == requested(filter@.subrange(0, i as int), name@),
        decreases i,
    {
        let ghost pre = filter@.subrange(0, i as int);
        assert(pre.drop_last() =~= filter@.subrange(0, i - 1));
        if filter[i - 1].0.eq(name) {
            return Some(i - 1);
        }
        i = i - 1;
    }
    assert(filter@.subrange(0, 0).len() == 0);
    None
}

/// Named tweens, each built with its curve and duration.
pub struct Context {
    pub tweens: TweenSet,
}

impl Context {
    pub open spec fn wf(self) -> bool {
        self.tweens.wf() && entries_ok(self.tweens.entries())
    }

    pub fn new() -> (c: Context)
        ensures
            c.wf(),
            c.tweens.entries().len() == 0,
    {
        Context { tweens: TweenSet::new() }
    }

    /// Adds a property resting at `value`.
    pub fn add_tween(&mut self, key: String, value: Value, curve: Curve, duration: u64)
        requires
            old(self).wf(),
            animates(curve, duration as int, kind_of(value)),
        ensures
            final(self).wf(),
            final(self).tweens.entries() == old(self).tweens.inserted(
                key,
                Tween::new_spec(value, value).with_curve(curve).with_duration(duration),
            ),
            final(self).tweens.contains(key@),
            forall|other: Seq<char>|
                old(self).tweens.contains(other) ==> #[trigger] final(self).tweens.contains(other),
            final(self).tweens.tween_of(key@) == Tween::new_spec(value, value).with_curve(
                curve,
            ).with_duration(duration),
            forall|other: Seq<char>|
                other != key@ && old(self).tweens.contains(other) ==> #[trigger] final(self).tweens.tween_of(other) == old(self).tweens.tween_of(other),
    {
        self.add_tween_delayed(key, value, curve, duration, 0);
        assert(Tween::new_spec(value, value).with_curve(curve).with_duration(duration).with_delay(0)
            == Tween::new_spec(value, value).with_curve(curve).with_duration(duration));
    }

    /// Adds a property resting at `value` that starts moving `delay`
    /// milliseconds into each run.
    pub fn add_tween_delayed(
        &mut self,
        key: String,
        value: Value,
        curve: Curve,
        duration: u64,
        delay: u64,
    )
        requires
            old(self).wf(),
            animates(curve, duration as int, kind_of(value)),
        ensures
            final(self).wf(),
            final(self).tweens.entries() == old(self).tweens.inserted(
                key,
                Tween::new_spec(value, value).with_curve(curve).with_duration(duration).with_delay(
                    delay,
                ),
            ),
            final(self).tweens.contains(key@),
            forall|other: Seq<char>|
                old(self).tweens.contains(other) ==> #[trigger] final(self).tweens.contains(other),
            final(self).tweens.tween_of(key@) == Tween::new_spec(value, value).with_curve(
                curve,
            ).with_duration(duration).with_delay(delay),
            forall|other: Seq<char>|
                other != key@ && old(self).tweens.contains(other) ==> #[trigger] final(self).tweens.tween_of(other) == old(self).tweens.tween_of(other),
    {
        let tween = Tween::new(value.clone(), value).curve(curve).duration(duration).delay(delay);
        let ghost before = self.tweens.entries();
        let ghost name = key@;
        proof {
            lemma_position_from(before, name, 0);
        }
        self.tweens.insert(key, tween);
        proof {
            let p = position_of(before, name);
            assert forall|i: int| 0 <= i < self.tweens.entries().len() implies tween_ok(
                #[trigger] self.tweens.entries()[i].tween,
            ) by {
                if (p >= 0 && i != p) || (p < 0 && i < before.len()) {
                    assert(self.tweens.entries()[i] == before[i]);
                }
            }
        }
    }
}

/// A running or resting transition over a [`Context`].
pub struct Transition {
    pub context: Context,
    pub playback: Playback,
    /// The entries the current run advances.
    pub participants: Vec<usize>,
}

impl Transition {
    pub open spec fn wf(self) -> bool {
        &&& self.context.wf()
        &&& increasing_below(self.participants@, self.context.tweens.entries().len() as int)
    }

    pub open spec fn entries(self) -> Seq<Entry> {
        self.context.tweens.entries()
    }

    pub fn new(context: Context) -> (t: Transition)
        requires
            context.wf(),
        ensures
            t.wf(),
            t.context == context,
            t.playback == Playback::new_spec(),
            t.participants@.len() == 0,
    {
        Transition { context, playback: Playback::new(), participants: Vec::new() }
    }

    /// The entries after the tween of `key` becomes `tween`.
    pub open spec fn with_tween(self, key: Seq<char>, tween: Tween) -> Seq<Entry> {
        let i = position_of(self.entries(), key);
        self.entries().update(i, Entry { name: self.entries()[i].name, tween })
    }

    /// The tween of `key`.
    pub open spec fn tween_of(self, key: Seq<char>) -> Tween {
        self.context.tweens.tween_of(key)
    }

    /// Replaces the tween at `i` by one that is still well formed.
    fn replace_tween(&mut self, i: usize, tween: Tween)
        requires
            old(self).wf(),
            i < old(self).entries().len(),
            tween_ok(tween),
        ensures
            final(self).wf(),
            final(self).playback == old(self).playback,
            final(self).participants@ == old(self).participants@,
            final(self).entries() == old(self).entries().update(
                i as int,
                Entry { name: old(self).entries()[i as int].name, tween },
            ),
    {
        let ghost before = self.entries();
        self.context.tweens.set_tween(i, tween);
        proof {
            assert forall|a: int| 0 <= a < self.entries().len() implies tween_ok(
                #[trigger] self.entries()[a].tween,
            ) by {
                if a != i {
                    assert(self.entries()[a] == before[a]);
                }
            }
            assert forall|a: int, b: int|
                0 <= a < b < self.entries().len() implies #[trigger] self.entries()[a].name@
                != #[trigger] self.entries()[b].name@ by {
                assert(self.entries()[a].name == before[a].name);
                assert(self.entries()[b].name == before[b].name);
            }
        }
    }

    fn index_of(&self, key: &str) -> (i: usize)
        requires
            self.context.tweens.contains(key@),
        ensures
            i as int == position_of(self.entries(), key@),
            i < self.entries().len(),
    {
        match self.context.tweens.position(key) {
            Some(i) => i,
            None => 0,
        }
    }

    /// Redirects the property `key` towards `value` from where it stands.
    pub fn set(&mut self, key: &str, value: Value)
        requires
            old(self).wf(),
            old(self).context.tweens.contains(key@),
            kind_of(value) == kind_of(old(self).tween_of(key@).value),
        ensures
            final(self).wf(),
            final(self).playback == old(self).playback,
            final(self).participants@ == old(self).participants@,
            final(self).entries() == old(self).with_tween(key@, old(self).tween_of(key@).redirected(value)),
    {
        let i = self.index_of(key);
        let mut tween = self.context.tweens.tween_at(i).clone();
        tween.to(value);
        self.replace_tween(i, tween);
    }

    /// Changes the duration of the property `key`.
    pub fn set_duration(&mut self, key: &str, millis: u64)
        requires
            old(self).wf(),
            old(self).context.tweens.contains(key@),
            animates(
                old(self).tween_of(key@).curve,
                millis as int,
                kind_of(old(self).tween_of(key@).value),
            ),
        ensures
            final(self).wf(),
            final(self).playback == old(self).playback,
            final(self).participants@ == old(self).participants@,
            final(self).entries() == old(self).with_tween(key@, old(self).tween_of(key@).with_duration(millis)),
    {
        let i = self.index_of(key);
        let mut tween = self.context.tweens.tween_at(i).clone();
        tween.set_duration(millis);
        self.replace_tween(i, tween);
    }

    /// Puts the property `key` at `value` at once, as its new origin.
    pub fn forced_set(&mut self, key: &str, value: Value)
        requires
            old(self).wf(),
            old(self).context.tweens.contains(key@),
            kind_of(value) == kind_of(old(self).tween_of(key@).value),
        ensures
            final(self).wf(),
            final(self).playback == old(self).playback,
            final(self).participants@ == old(self).participants@,
            final(self).entries() == old(self).with_tween(
                key@,
                Tween { origin: value, value, ..old(self).tween_of(key@) },
            ),
    {
        let i = self.index_of(key);
        let mut tween = self.context.tweens.tween_at(i).clone();
        tween.set(value);
        self.replace_tween(i, tween);
    }

    /// The current value of the property `key`.
    pub fn get(&self, key: &str) -> (v: Value)
        requires
            self.context.tweens.contains(key@),
        ensures
            v == self.tween_of(key@).value,
    {
        self.context.tweens.value(key).clone()
    }

    pub fn is_playing(&self) -> (r: bool)
        ensures
            r == self.playback.running,
    {
        self.playback.is_playing()
    }

    pub fn peek_has_run_yet(&self) -> (r: bool)
        ensures
            r == self.playback.has_run_yet,
    {
        self.playback.peek_has_run_yet()
    }

    /// Makes every property a participant.
    pub(crate) fn take_all(&mut self)
        requires
            old(self).wf(),
        ensures
            final(self).wf(),
            final(self).context == old(self).context,
            final(self).playback == old(self).playback,
            final(self).participants@ == Seq::new(old(self).entries().len(), |i: int| i as usize),
    {
        let n: usize = self.context.tweens.len();
        let mut participants: Vec<usize> = Vec::new();
        let mut i: usize = 0;
        while i < n
            invariant
                i <= n,
                n == self.entries().len(),
                participants@ == Seq::new(i as nat, |j: int| j as usize),
            decreases n - i,
        {
            participants.push(i);
            i = i + 1;
            assert(participants@ =~= Seq::new(i as nat, |j: int| j as usize));
        }
        self.participants = participants;
    }

    /// Runs every property towards its current destination; returns the
    /// token of the new run, which cancels any run before it.
    pub fn play_all(&mut self) -> (token: u64)
        requires
            old(self).wf(),
            old(self).playback.generation < u64::MAX,
        ensures
            final(self).wf(),
            final(self).context == old(self).context,
            final(self).playback == old(self).playback.started(),
            token == final(self).playback.generation,
            final(self).participants@ == Seq::new(old(self).entries().len(), |i: int| i as usize),
    {
        self.take_all();
        self.playback.start()
    }

    /// Redirects each property that `filter` names towards the value it
    /// gives (the last, if it names one twice); returns their indices.
    pub(crate) fn redirect_named(&mut self, filter: &Vec<(String, Value)>) -> (sel: Vec<usize>)
        requires
            old(self).wf(),
            forall|i: int|
                0 <= i < old(self).entries().len() ==> match requested(
                    filter@,
                    #[trigger] old(self).entries()[i].name@,
                ) {
                    Some(v) => kind_of(v) == kind_of(old(self).entries()[i].tween.value),
                    None => true,
                },
        ensures
            final(self).wf(),
            final(self).entries() == redirected_entries(old(self).entries(), filter@),
            final(self).playback == old(self).playback,
            final(self).participants@ == old(self).participants@,
            sel@ == selected(old(self).entries(), filter@, old(self).entries().len() as int),
            increasing_below(sel@, old(self).entries().len() as int),
    {
        let ghost before = self.entries();
        let n: usize = self.context.tweens.len();
        let mut participants: Vec<usize> = Vec::new();
        let mut i: usize = 0;
        while i < n
            invariant
                i <= n,
                n == before.len(),
                self.wf(),
                self.playback == old(self).playback,
                self.participants@ == old(self).participants@,
                self.entries().len() == n,
                forall|j: int|
                    0 <= j < i ==> #[trigger] self.entries()[j] == redirected_entries(
                        before,
                        filter@,
                    )[j],
                forall|j: int| i <= j < n ==> #[trigger] self.entries()[j] == before[j],
                participants@ == selected(before, filter@, i as int),
                increasing_below(participants@, i as int),
                forall|j: int|
                    0 <= j < before.len() ==> match requested(filter@, #[trigger] before[j].name@) {
                        Some(v) => kind_of(v) == kind_of(before[j].tween.value),
                        None => true,
                    },
            decreases n - i,
        {
            let ghost mid = self.entries();
            match lookup(filter, self.context.tweens.name_at(i)) {
                Some(j) => {
                    let mut tween = self.context.tweens.tween_at(i).clone();
                    tween.to(filter[j].1.clone());
                    self.replace_tween(i, tween);
                    participants.push(i);
                },
                None => {},
            }
            proof {
                assert forall|j: int| 0 <= j < i + 1 implies #[trigger] self.entries()[j]
                    == redirected_entries(before, filter@)[j] by {
                    if j < i {
                        assert(self.entries()[j] == mid[j]);
                    }
                }
                assert forall|j: int| i + 1 <= j < n implies #[trigger] self.entries()[j]
                    == before[j] by {
                    assert(self.entries()[j] == mid[j]);
                }
            }
            i = i + 1;
        }
        assert(self.entries() =~= redirected_entries(before, filter@));
        participants
    }

    /// Redirects each property that `filter` names towards the value it
    /// gives (the last, if it names one twice) and runs just those; every
    /// name must be a property. Returns the token of the new run, which
    /// cancels any run before it.
    pub fn play(&mut self, filter: Vec<(String, Value)>) -> (token: u64)
        requires
            old(self).wf(),
            old(self).playback.generation < u64::MAX,
            forall|j: int|
                0 <= j < filter@.len() ==> old(self).context.tweens.contains(#[trigger] filter@[j].0@),
            forall|i: int|
                0 <= i < old(self).entries().len() ==> match requested(
                    filter@,
                    #[trigger] old(self).entries()[i].name@,
                ) {
                    Some(v) => kind_of(v) == kind_of(old(self).entries()[i].tween.value),
                    None => true,
                },
        ensures
            final(self).wf(),
            final(self).entries() == redirected_entries(old(self).entries(), filter@),
            final(self).playback == old(self).playback.started(),
            token == final(self).playback.generation,
            final(self).participants@ == selected(
                old(self).entries(),
                filter@,
                old(self).entries().len() as int,
            ),
    {
        let sel = self.redirect_named(&filter);
        self.participants = sel;
        self.playback.start()
    }

    /// Cancels the current run, if any.
    pub fn cancel(&mut self)
        ensures
            final(self).context == old(self).context,
            final(self).participants == old(self).participants,
            final(self).playback == (Playback { active: None, ..old(self).playback }),
    {
        self.playback.cancel();
    }

    /// One clock tick of `delta` milliseconds for the run with `token`: the
    /// participants advance to the run's elapsed time. Returns whether the
    /// run goes on; it ends when every participant is done, and a stale
    /// token changes nothing and ends its loop.
    pub fn tick(&mut self, token: u64, delta: u64) -> (more: bool)
        requires
            old(self).wf(),
        ensures
            final(self).wf(),
            !old(self).playback.admits(token) ==> *final(self) == *old(self) && !more,
            old(self).playback.admits(token) ==> {
                let time = old(self).playback.ticked(token, delta).elapsed as int;
                let entries = advanced_entries(old(self).entries(), old(self).participants@, time);
                &&& final(self).entries() == entries
                &&& final(self).participants@ == old(self).participants@
                &&& more == !all_done(entries, old(self).participants@, time)
                &&& final(self).playback == if more {
                    old(self).playback.ticked(token, delta)
                } else {
                    old(self).playback.ticked(token, delta).finished(token)
                }
            },
    {
        let elapsed: u64 = match self.playback.tick(token, delta) {
            Some(e) => e,
            None => {
                return false;
            },
        };
        let ghost before = self.entries();
        let np: usize = self.participants.len();
        let mut j: usize = 0;
        while j < np
            invariant
                j <= np,
                np == self.participants@.len(),
                self.participants@ == old(self).participants@,
                self.wf(),
                self.entries().len() == before.len(),
                self.playback == old(self).playback.ticked(token, delta),
                forall|i: int|
                    0 <= i < before.len() ==> #[trigger] self.entries()[i] == if listed(
                        self.participants@,
                        j as int,
                        i,
                    ) {
                        advanced_entries(before, self.participants@, elapsed as int)[i]
                    } else {
                        before[i]
                    },
            decreases np - j,
        {
            let p: usize = self.participants[j];
            let ghost mid = self.entries();
            assert(!listed(self.participants@, j as int, p as int));
            assert(listed(self.participants@, np as int, p as int)) by {
                assert(self.participants@[j as int] as int == p as int);
            }
            let mut tween = self.context.tweens.tween_at(p).clone();
            proof {
                crate::tween::lemma_kind_kept(tween, kind_of(tween.value), elapsed as int);
            }
            tween.advance(elapsed);
            self.replace_tween(p, tween);
            proof {
                assert forall|i: int| 0 <= i < before.len() implies #[trigger] self.entries()[i]
                    == if listed(self.participants@, j as int + 1, i) {
                    advanced_entries(before, self.participants@, elapsed as int)[i]
                } else {
                    before[i]
                } by {
                    if i == p as int {
                        assert(self.participants@[j as int] as int == i);
                    } else {
                        assert(self.entries()[i] == mid[i]);
                        if listed(self.participants@, j as int + 1, i) {
                            let q = choose|q: int|
                                0 <= q < j + 1 && #[trigger] self.participants@[q] as int == i;
                            assert(q < j);
                        }
                    }
                }
            }
            j = j + 1;
        }
        assert(self.entries() =~= advanced_entries(before, self.participants@, elapsed as int));
        let mut done = true;
        let mut j: usize = 0;
        while j < np
            invariant
                j <= np,
                np == self.participants@.len(),
                self.wf(),
                done == forall|q: int|
                    0 <= q < j ==> elapsed >= self.entries()[self.participants@[q] as int].tween.delay
                        + self.entries()[self.participants@[q] as int].tween.duration,
            decreases np - j,
        {
            let p: usize = self.participants[j];
            if !self.context.tweens.tween_at(p).is_done(elapsed as u128) {
                done = false;
            }
            j = j + 1;
        }
        if done {
            self.playback.finish(token);
        }
        !done
    }
}

} // verus!
