//! Named properties, each driven on its own by a path or keyframe
//! animation; playing one property cancels only that property's run.
use crate::animations::keyframe::{frame_curve, KeyFrameAnimation};
use crate::animations::path::{path_step, PathAnimation};
use crate::tween::{animates, Tween};
use crate::tween_set::{position_of, Entry, TweenSet};
use crate::value::{kind_of, Value};
use crate::value_based::{entries_ok, tween_ok};
use vstd::prelude::*;

verus! {

/// What drives one property through time.
pub enum Animation {
    Path(PathAnimation),
    KeyFrame(KeyFrameAnimation),
}

impl Animation {
    pub open spec fn duration_spec(self) -> u64 {
        match self {
            Animation::Path(p) => p.duration,
            Animation::KeyFrame(k) => k.duration,
        }
    }

    /// The tween after [`Animation::init`].
    pub open spec fn init_spec(self, tw: Tween) -> Tween {
        match self {
            Animation::Path(p) => match p.initial_value {
                Some(v) => Tween { origin: v, value: v, ..tw },
                None => tw,
            },
            Animation::KeyFrame(_) => tw,
        }
    }

    /// The tween a run starts from: initialised, with the animation's
    /// duration.
    pub open spec fn started_tween(self, tw: Tween) -> Tween {
        Tween { duration: self.duration_spec(), ..self.init_spec(tw) }
    }

    /// The animation can drive a tween whose values are of the tween's
    /// kind, with the animation's duration.
    pub open spec fn drives(self, tw: Tween) -> bool {
        let k = kind_of(tw.value);
        &&& tween_ok(tw)
        &&& match self {
            Animation::Path(p) => p.fits(k) && match p.initial_value {
                Some(v) => kind_of(v) == k,
                None => true,
            },
            Animation::KeyFrame(a) => a.wf() && a.fits(k),
        }
    }

    pub fn get_duration(&self) -> (d: u64)
        ensures
            d == self.duration_spec(),
    {
        match self {
            Animation::Path(p) => p.get_duration(),
            Animation::KeyFrame(k) => k.get_duration(),
        }
    }

    /// Prepares the tween before the first tick.
    pub fn init(&self, tween: &mut Tween)
        ensures
            *final(tween) == self.init_spec(*old(tween)),
    {
        match self {
            Animation::Path(p) => p.init(tween),
            Animation::KeyFrame(_) => {},
        }
    }

    /// Drives the tween at `index` milliseconds into the run.
    pub fn advance(&mut self, tween: &mut Tween, index: u64)
        requires
            old(self).drives(*old(tween)),
        ensures
            final(self).drives(*final(tween)),
            final(self).duration_spec() == old(self).duration_spec(),
            kind_of(final(tween).value) == kind_of(old(tween).value),
            match *old(self) {
                Animation::Path(p) => *final(self) == *old(self) && *final(tween) == path_step(
                    p.segments_seq(),
                    *old(tween),
                    index as int,
                ),
                Animation::KeyFrame(a0) => match *final(self) {
                    Animation::KeyFrame(a1) => {
                        &&& a1.frames == a0.frames
                        &&& a1.duration == a0.duration
                        &&& *final(tween) == keyframe_stepped(
                            a0.frames@,
                            a1.current_frame,
                            *old(tween),
                            index as int,
                        )
                    },
                    _ => false,
                },
            },
    {
        match self {
            Animation::Path(p) => {
                p.advance(tween, index);
                proof {
                    lemma_path_step_ok(p.segments_seq(), *old(tween), index as int);
                }
            },
            Animation::KeyFrame(a) => {
                let ghost d = old(tween).duration;
                a.advance(tween, index);
                assert(tween.duration == d) by {
                    match a.current_frame {
                        Some(f) => {},
                        None => {},
                    }
                }
                proof {
                    match a.current_frame {
                        Some(f) => {
                            assert(crate::animations::keyframe::frame_fits(a.frames@[f as int], kind_of(old(tween).value)));
                        },
                        None => {},
                    }
                }
            },
        }
    }
}

/// A tween after a keyframe step with the cursor at `cur`: the frame in
/// force sets the curve and destination, and the tween advances to
/// `index`; with no frame in force it stays as it is.
pub open spec fn keyframe_stepped(
    frames: Seq<crate::animations::keyframe::Frame>,
    cur: Option<usize>,
    tw: Tween,
    index: int,
) -> Tween {
    match cur {
        Some(f) => tw.stepped(frame_curve(frames[f as int]), frames[f as int].value, tw.duration, index),
        None => tw,
    }
}

/// A tween after a keyframe run's tick at `index`: the keyframe step, and
/// when the run ends, the advance to the run's duration.
pub open spec fn keyframe_tick(
    frames: Seq<crate::animations::keyframe::Frame>,
    cur: Option<usize>,
    tw: Tween,
    index: int,
    duration: int,
    more: bool,
) -> Tween {
    let stepped = keyframe_stepped(frames, cur, tw, index);
    if more {
        stepped
    } else {
        Tween { value: stepped.value_at(duration), ..stepped }
    }
}

/// A path step keeps a tween that its segments fit well formed.
proof fn lemma_path_step_ok(segs: Seq<crate::animations::path::Segment>, tw: Tween, index: int)
    requires
        tween_ok(tw),
        forall|i: int|
            0 <= i < segs.len() ==> kind_of(#[trigger] segs[i].value) == kind_of(tw.value)
                && animates(segs[i].curve, segs[i].duration as int, kind_of(tw.value)),
    ensures
        tween_ok(path_step(segs, tw, index)),
{
    crate::animations::path::lemma_find_from_bounds(segs, index, 0);
    let i = crate::animations::path::segment_at(segs, index);
    if i >= 0 {
        let t = tw.retargeted(segs[i].curve, segs[i].value, segs[i].duration);
        crate::tween::lemma_kind_kept(t, kind_of(tw.value), index - segs[i].start);
    }
}

/// A property's run: its token, its animation and its clock.
pub struct Run {
    pub token: u64,
    pub animation: Animation,
    pub elapsed: u64,
}

/// The named tweens.
pub struct Context {
    pub tweens: TweenSet,
}

impl Context {
    pub open spec fn wf(self) -> bool {
        self.tweens.wf() && entries_ok(self.tweens.entries())
    }

    pub fn new() -> (c: Context)
        ensures
            c.wf(),
            c.tweens.entries().len() == 0,
    {
        Context { tweens: TweenSet::new() }
    }

    /// Adds a property resting at `value`.
    pub fn add_tween(&mut self, key: String, value: Value)
        requires
            old(self).wf(),
        ensures
            final(self).wf(),
            final(self).tweens.entries() == old(self).tweens.inserted(key, Tween::new_spec(value, value)),
    {
        let ghost before = self.tweens.entries();
        let ghost name = key@;
        proof {
            crate::tween_set::lemma_position_from(before, name, 0);
        }
        let tween = Tween::new(value.clone(), value);
        self.tweens.insert(key, tween);
        proof {
            let p = position_of(before, name);
            assert forall|i: int| 0 <= i < self.tweens.entries().len() implies tween_ok(
                #[trigger] self.tweens.entries()[i].tween,
            ) by {
                if (p >= 0 && i != p) || (p < 0 && i < before.len()) {
                    assert(self.tweens.entries()[i] == before[i]);
                }
            }
        }
    }
}

/// A keyframe run's property after a tick at `e`: the step with some
/// cursor, which the run keeps while it goes on.
pub open spec fn keyframe_slot(
    a0: KeyFrameAnimation,
    old_tw: Tween,
    new_tw: Tween,
    new_slot: Option<Run>,
    e: int,
    more: bool,
) -> bool {
    exists|cur: Option<usize>|
        {
            &&& new_tw == #[trigger] keyframe_tick(
                a0.frames@,
                cur,
                old_tw,
                e,
                a0.duration as int,
                more,
            )
            &&& more ==> new_slot.unwrap().animation == Animation::KeyFrame(
                KeyFrameAnimation { frames: a0.frames, current_frame: cur, duration: a0.duration },
            )
        }
}

/// What a tick of the run in slot `i` does: its clock moves by `delta`
/// (saturating); its animation drives the property; the run ends, and the
/// property is advanced to the animation's duration, once the clock
/// reaches that duration; the other slots stay.
pub open spec fn ticked_slot(
    old_a: TraitBasedAnimation,
    new_a: TraitBasedAnimation,
    i: int,
    delta: u64,
    more: bool,
) -> bool {
    &&& ticked_runs(old_a, new_a, i, delta, more)
    &&& ticked_tween(old_a, new_a, i, delta, more)
}

/// The slots after a tick of the run in slot `i`.
pub open spec fn ticked_runs(
    old_a: TraitBasedAnimation,
    new_a: TraitBasedAnimation,
    i: int,
    delta: u64,
    more: bool,
) -> bool {
    let run = old_a.runs@[i].unwrap();
    let e = if run.elapsed + delta > u64::MAX {
        u64::MAX
    } else {
        (run.elapsed + delta) as u64
    };
    &&& more == (e < run.animation.duration_spec())
    &&& more ==> new_a.runs@[i] is Some && new_a.runs@[i].unwrap().token
        == run.token && new_a.runs@[i].unwrap().elapsed == e
    &&& !more ==> new_a.runs@[i] is None && new_a.running
        == !TraitBasedAnimation::idle(new_a.runs@)
    &&& forall|j: int|
        0 <= j < old_a.runs@.len() && j != i ==> #[trigger] new_a.runs@[j]
            == old_a.runs@[j]
}

/// The property of slot `i` after a tick of its run.
pub open spec fn ticked_tween(
    old_a: TraitBasedAnimation,
    new_a: TraitBasedAnimation,
    i: int,
    delta: u64,
    more: bool,
) -> bool {
    let run = old_a.runs@[i].unwrap();
    let e = if run.elapsed + delta > u64::MAX {
        u64::MAX
    } else {
        (run.elapsed + delta) as u64
    };
    &&& kind_of(new_a.context.tweens.entries()[i].tween.value) == kind_of(
        old_a.context.tweens.entries()[i].tween.value,
    )
    &&& match run.animation {
        Animation::Path(p) => {
            let stepped = path_step(
                p.segments_seq(),
                old_a.context.tweens.entries()[i].tween,
                e as int,
            );
            new_a.context.tweens.entries()[i].tween == if more {
                stepped
            } else {
                Tween { value: stepped.value_at(p.duration as int), ..stepped }
            }
        },
        Animation::KeyFrame(a0) => keyframe_slot(
            a0,
            old_a.context.tweens.entries()[i].tween,
            new_a.context.tweens.entries()[i].tween,
            new_a.runs@[i],
            e as int,
            more,
        ),
    }
}

/// Properties driven each by its own animation.
pub struct TraitBasedAnimation {
    pub context: Context,
    /// One slot per property, in the same order: its run, if any.
    pub runs: Vec<Option<Run>>,
    pub generation: u64,
    pub running: bool,
    pub has_run_yet: bool,
}

impl TraitBasedAnimation {
    pub open spec fn wf(self) -> bool {
        &&& self.context.wf()
        &&& self.runs@.len() == self.context.tweens.entries().len()
        &&& forall|i: int|
            0 <= i < self.runs@.len() ==> match #[trigger] self.runs@[i] {
                Some(r) => r.animation.drives(self.context.tweens.entries()[i].tween)
                    && r.token <= self.generation,
                None => true,
            }
        &&& forall|i: int, j: int|
            0 <= i < j < self.runs@.len() && #[trigger] self.runs@[i] is Some
                && #[trigger] self.runs@[j] is Some ==> self.runs@[i].unwrap().token
                != self.runs@[j].unwrap().token
    }

    /// No property is running.
    pub open spec fn idle(runs: Seq<Option<Run>>) -> bool {
        forall|i: int| 0 <= i < runs.len() ==> #[trigger] runs[i] is None
    }

    pub fn new(context: Context) -> (a: TraitBasedAnimation)
        requires
            context.wf(),
        ensures
            a.wf(),
            a.context == context,
            TraitBasedAnimation::idle(a.runs@),
            a.generation == 0,
            !a.running,
            !a.has_run_yet,
    {
        let n: usize = context.tweens.len();
        let mut runs: Vec<Option<Run>> = Vec::new();
        let mut i: usize = 0;
        while i < n
            invariant
                i <= n,
                runs@.len() == i,
                TraitBasedAnimation::idle(runs@),
            decreases n - i,
        {
            runs.push(None);
            i = i + 1;
        }
        TraitBasedAnimation { context, runs, generation: 0, running: false, has_run_yet: false }
    }

    pub fn is_playing(&self) -> (r: bool)
        ensures
            r == self.running,
    {
        self.running
    }

    pub fn peek_has_run_yet(&self) -> (r: bool)
        ensures
            r == self.has_run_yet,
    {
        self.has_run_yet
    }

    /// The current value of property `key`.
    pub fn get(&self, key: &str) -> (v: Value)
        requires
            self.context.tweens.contains(key@),
        ensures
            v == self.context.tweens.tween_of(key@).value,
    {
        self.context.tweens.value(key).clone()
    }

    fn replace_tween(&mut self, i: usize, tween: Tween)
        requires
            old(self).wf(),
            i < old(self).runs@.len(),
            tween_ok(tween),
            match old(self).runs@[i as int] {
                Some(r) => r.animation.drives(tween),
                None => true,
            },
        ensures
            final(self).wf(),
            final(self).runs == old(self).runs,
            final(self).generation == old(self).generation,
            final(self).running == old(self).running,
            final(self).has_run_yet == old(self).has_run_yet,
            final(self).context.tweens.entries() == old(self).context.tweens.entries().update(
                i as int,
                Entry { name: old(self).context.tweens.entries()[i as int].name, tween },
            ),
    {
        let ghost before = self.context.tweens.entries();
        self.context.tweens.set_tween(i, tween);
        proof {
            assert forall|a: int| 0 <= a < self.context.tweens.entries().len() implies tween_ok(
                #[trigger] self.context.tweens.entries()[a].tween,
            ) by {
                if a != i {
                    assert(self.context.tweens.entries()[a] == before[a]);
                }
            }
            assert forall|a: int| 0 <= a < self.runs@.len() implies match #[trigger] self.runs@[a] {
                Some(r) => r.animation.drives(self.context.tweens.entries()[a].tween)
                    && r.token <= self.generation,
                None => true,
            } by {
                if a != i {
                    assert(self.context.tweens.entries()[a] == before[a]);
                }
            }
        }
    }

    /// Puts property `key` at `value`, as its new origin.
    pub fn set(&mut self, key: &str, value: Value)
        requires
            old(self).wf(),
            old(self).context.tweens.contains(key@),
            kind_of(value) == kind_of(old(self).context.tweens.tween_of(key@).value),
        ensures
            final(self).wf(),
            final(self).context.tweens.entries() == old(self).context.tweens.entries().update(
                position_of(old(self).context.tweens.entries(), key@),
                Entry {
                    name: old(self).context.tweens.entries()[position_of(
                        old(self).context.tweens.entries(),
                        key@,
                    )].name,
                    tween: Tween { origin: value, value, ..old(self).context.tweens.tween_of(key@) },
                },
            ),
    {
        let i: usize = match self.context.tweens.position(key) {
            Some(i) => i,
            None => 0,
        };
        let mut tween = self.context.tweens.tween_at(i).clone();
        tween.set(value);
        proof {
            assert(self.runs@[i as int] is Some ==> self.runs@[i as int].unwrap().animation.drives(
                self.context.tweens.entries()[i as int].tween,
            ));
        }
        self.replace_tween(i, tween);
    }

    /// Starts `animation` on property `key`, cancelling that property's
    /// previous run: the animation prepares the tween and gives it its
    /// duration. Returns the run's token.
    pub fn play(&mut self, key: &str, animation: Animation) -> (token: u64)
        requires
            old(self).wf(),
            old(self).generation < u64::MAX,
            old(self).context.tweens.contains(key@),
            animation.drives(animation.started_tween(old(self).context.tweens.tween_of(key@))),
        ensures
            final(self).wf(),
            ({
                let i = position_of(old(self).context.tweens.entries(), key@);
                &&& token == final(self).generation
                &&& final(self).generation == old(self).generation + 1
                &&& final(self).running
                &&& final(self).has_run_yet
                &&& final(self).context.tweens.entries() == old(self).context.tweens.entries().update(
                    i,
                    Entry {
                        name: old(self).context.tweens.entries()[i].name,
                        tween: animation.started_tween(old(self).context.tweens.tween_of(key@)),
                    },
                )
                &&& final(self).runs@[i] == Some(Run { token, animation, elapsed: 0 })
                &&& forall|j: int| 0 <= j < final(self).runs@.len() && j != i ==> #[trigger] final(self).runs@[j] == old(self).runs@[j]
            }),
    {
        let i: usize = match self.context.tweens.position(key) {
            Some(i) => i,
            None => 0,
        };
        let mut tween = self.context.tweens.tween_at(i).clone();
        animation.init(&mut tween);
        tween.set_duration(animation.get_duration());
        let ghost before_runs = self.runs@;
        self.runs.set(i, None);
        proof {
            assert forall|a: int| 0 <= a < self.runs@.len() implies match #[trigger] self.runs@[a] {
                Some(r) => r.animation.drives(self.context.tweens.entries()[a].tween)
                    && r.token <= self.generation,
                None => true,
            } by {
                if a != i {
                    assert(self.runs@[a] == before_runs[a]);
                }
            }
        }
        self.replace_tween(i, tween);
        self.generation = self.generation + 1;
        let token: u64 = self.generation;
        let ghost mid_runs = self.runs@;
        self.runs.set(i, Some(Run { token, animation, elapsed: 0 }));
        self.has_run_yet = true;
        self.running = true;
        proof {
            assert forall|a: int| 0 <= a < self.runs@.len() implies match #[trigger] self.runs@[a] {
                Some(r) => r.animation.drives(self.context.tweens.entries()[a].tween)
                    && r.token <= self.generation,
                None => true,
            } by {
                if a != i {
                    assert(self.runs@[a] == mid_runs[a]);
                }
            }
        }
        token
    }

    /// Cancels the run of property `key`, if any.
    pub fn cancel(&mut self, key: &str)
        requires
            old(self).wf(),
        ensures
            final(self).wf(),
            final(self).context == old(self).context,
            final(self).runs@ == if old(self).context.tweens.contains(key@) {
                old(self).runs@.update(old(self).context.tweens.position_of_spec(key@), None)
            } else {
                old(self).runs@
            },
    {
        let ghost before = self.runs@;
        match self.context.tweens.position(key) {
            Some(i) => {
                self.runs.set(i, None);
                proof {
                    assert forall|a: int| 0 <= a < self.runs@.len() implies match #[trigger] self.runs@[a] {
                        Some(r) => r.animation.drives(self.context.tweens.entries()[a].tween)
                            && r.token <= self.generation,
                        None => true,
                    } by {
                        if a != i {
                            assert(self.runs@[a] == before[a]);
                        }
                    }
                }
            },
            None => {},
        }
    }

    /// Cancels every run.
    pub fn cancel_all(&mut self)
        requires
            old(self).wf(),
        ensures
            final(self).wf(),
            final(self).context == old(self).context,
            final(self).runs@.len() == old(self).runs@.len(),
            TraitBasedAnimation::idle(final(self).runs@),
    {
        let n: usize = self.runs.len();
        let mut i: usize = 0;
        while i < n
            invariant
                i <= n,
                n == self.runs@.len(),
                self.wf(),
                self.context == old(self).context,
                forall|j: int| 0 <= j < i ==> #[trigger] self.runs@[j] is None,
            decreases n - i,
        {
            let ghost before = self.runs@;
            self.runs.set(i, None);
            proof {
                assert forall|a: int| 0 <= a < self.runs@.len() implies match #[trigger] self.runs@[a] {
                    Some(r) => r.animation.drives(self.context.tweens.entries()[a].tween)
                        && r.token <= self.generation,
                    None => true,
                } by {
                    if a != i {
                        assert(self.runs@[a] == before[a]);
                    }
                }
            }
            i = i + 1;
        }
    }

    /// Finds the slot whose run has `token`.
    fn slot_of(&self, token: u64) -> (r: Option<usize>)
        ensures
            match r {
                Some(i) => i < self.runs@.len() && self.runs@[i as int] is Some
                    && self.runs@[i as int].unwrap().token == token,
                None => forall|i: int|
                    0 <= i < self.runs@.len() ==> !(#[trigger] self.runs@[i] is Some
                        && self.runs@[i].unwrap().token == token),
            },
    {
        let mut i: usize = 0;
        while i < self.runs.len()
            invariant
                i <= self.runs@.len(),
                forall|j: int|
                    0 <= j < i ==> !(#[trigger] self.runs@[j] is Some && self.runs@[j].unwrap().token
                        == token),
            decreases self.runs@.len() - i,
        {
            match &self.runs[i] {
                Some(run) => {
                    if run.token == token {
                        return Some(i);
                    }
                },
                None => {},
            }
            i = i + 1;
        }
        None
    }

    /// Whether any property is running.
    fn any_running(&self) -> (r: bool)
        ensures
            r == !TraitBasedAnimation::idle(self.runs@),
    {
        let mut i: usize = 0;
        while i < self.runs.len()
            invariant
                i <= self.runs@.len(),
                forall|j: int| 0 <= j < i ==> #[trigger] self.runs@[j] is None,
            decreases self.runs@.len() - i,
        {
            if self.runs[i].is_some() {
                return true;
            }
            i = i + 1;
        }
        false
    }

    /// One clock tick of `delta` milliseconds for the run with `token`:
    /// its animation drives its property at the run's elapsed time. Once
    /// that reaches the animation's duration the property is advanced to
    /// the duration and the run ends. Returns whether the run goes on; a
    /// token of no current run changes nothing.
    #[verifier::spinoff_prover]
    #[verifier::rlimit(60)]
    pub fn tick(&mut self, token: u64, delta: u64) -> (more: bool)
        requires
            old(self).wf(),
        ensures
            final(self).wf(),
            final(self).runs@.len() == old(self).runs@.len(),
            final(self).generation == old(self).generation,
            final(self).has_run_yet == old(self).has_run_yet,
            (forall|i: int|
                0 <= i < old(self).runs@.len() ==> !(#[trigger] old(self).runs@[i] is Some
                    && old(self).runs@[i].unwrap().token == token)) ==> *final(self) == *old(self)
                && !more,
            forall|i: int|
                0 <= i < old(self).runs@.len() && #[trigger] old(self).runs@[i] is Some
                    && old(self).runs@[i].unwrap().token == token ==> ticked_slot(
                    *old(self),
                    *final(self),
                    i,
                    delta,
                    more,
                ),
    {
        let i: usize = match self.slot_of(token) {
            Some(i) => i,
            None => {
                return false;
            },
        };
        let ghost before = *self;
        assert forall|a: int|
            0 <= a < before.runs@.len() && #[trigger] before.runs@[a] is Some
                && before.runs@[a].unwrap().token == token implies a == i by {
            if a < i {
                assert(before.runs@[a].unwrap().token != before.runs@[i as int].unwrap().token);
            } else if a > i {
                assert(before.runs@[i as int].unwrap().token != before.runs@[a].unwrap().token);
            }
        }
        let mut taken: Option<Run> = None;
        std::mem::swap(&mut self.runs[i], &mut taken);
        proof {
            assert forall|a: int| 0 <= a < self.runs@.len() implies match #[trigger] self.runs@[a] {
                Some(r) => r.animation.drives(self.context.tweens.entries()[a].tween)
                    && r.token <= self.generation,
                None => true,
            } by {
                if a != i {
                    assert(self.runs@[a] == before.runs@[a]);
                }
            }
        }
        let mut run: Run = match taken {
            Some(run) => run,
            None => {
                return false;
            },
        };
        let e: u64 = run.elapsed.saturating_add(delta);
        let mut tween = self.context.tweens.tween_at(i).clone();
        let ghost a_before = run.animation;
        run.animation.advance(&mut tween, e);
        let ghost after_step = tween;
        let ghost cur: Option<usize> = if run.animation is KeyFrame {
            (run.animation->KeyFrame_0).current_frame
        } else {
            None
        };
        proof {
            if a_before is KeyFrame {
                let a0 = a_before->KeyFrame_0;
                assert(keyframe_stepped(a0.frames@, cur, before.context.tweens.entries()[i as int].tween, e as int)
                    == after_step);
                assert(run.animation == Animation::KeyFrame(
                    KeyFrameAnimation { frames: a0.frames, current_frame: cur, duration: a0.duration },
                ));
            }
        }
        let d: u64 = run.animation.get_duration();
        if e >= d {
            proof {
                crate::tween::lemma_kind_kept(tween, kind_of(tween.value), d as int);
            }
            tween.advance(d);
            self.replace_tween(i, tween);
            self.running = self.any_running();
            proof {
                if a_before is KeyFrame {
                    let a0 = a_before->KeyFrame_0;
                    assert(self.context.tweens.entries()[i as int].tween == keyframe_tick(
                        a0.frames@,
                        cur,
                        before.context.tweens.entries()[i as int].tween,
                        e as int,
                        a0.duration as int,
                        false,
                    ));
                    assert(keyframe_slot(
                        a0,
                        before.context.tweens.entries()[i as int].tween,
                        self.context.tweens.entries()[i as int].tween,
                        self.runs@[i as int],
                        e as int,
                        false,
                    ));
                }
                assert(before.runs@[i as int].unwrap().animation == a_before);
                assert(ticked_runs(before, *self, i as int, delta, false));
                assert(ticked_tween(before, *self, i as int, delta, false));
            }
            false
        } else {
            self.replace_tween(i, tween);
            let ghost mid = self.runs@;
            self.runs.set(i, Some(Run { token, animation: run.animation, elapsed: e }));
            proof {
                assert forall|a: int| 0 <= a < self.runs@.len() implies match #[trigger] self.runs@[a] {
                    Some(r) => r.animation.drives(self.context.tweens.entries()[a].tween)
                        && r.token <= self.generation,
                    None => true,
                } by {
                    if a != i {
                        assert(self.runs@[a] == mid[a]);
                    }
                }
                if a_before is KeyFrame {
                    let a0 = a_before->KeyFrame_0;
                    assert(self.context.tweens.entries()[i as int].tween == keyframe_tick(
                        a0.frames@,
                        cur,
                        before.context.tweens.entries()[i as int].tween,
                        e as int,
                        a0.duration as int,
                        true,
                    ));
                    assert(keyframe_slot(
                        a0,
                        before.context.tweens.entries()[i as int].tween,
                        self.context.tweens.entries()[i as int].tween,
                        self.runs@[i as int],
                        e as int,
                        true,
                    ));
                }
                assert(before.runs@[i as int].unwrap().animation == a_before);
                assert(ticked_runs(before, *self, i as int, delta, true));
                assert(ticked_tween(before, *self, i as int, delta, true));
            }
            true
        }
    }
}

} // verus!
