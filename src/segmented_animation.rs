//! Several named properties driven by one timeline of segments, each
//! segment moving one property.
use crate::curves::Curve;
use crate::playback::Playback;
use crate::tween::{animates, Tween};
use crate::tween_set::{position_of, Entry, TweenSet};
use crate::value::{kind_of, Value};
use crate::value_based::{entries_ok, tween_ok};
use indexmap::IndexMap;
use std::ops::Range;
use vstd::prelude::*;

verus! {

/// A stretch `[start, end)` of the timeline in which property `tween`
/// heads for `value` with `curve` over `duration` milliseconds.
pub struct Segment {
    pub start: u64,
    pub end: u64,
    pub tween: String,
    pub value: Value,
    pub curve: Curve,
    pub duration: u64,
}

/// The first segment at or after `i` whose range holds `index`, or -1.
pub open spec fn segment_from(segs: Seq<Segment>, index: int, i: int) -> int
    decreases segs.len() - i,
{
    if i < 0 || i >= segs.len() {
        -1
    } else if segs[i].start <= index < segs[i].end {
        i
    } else {
        segment_from(segs, index, i + 1)
    }
}

proof fn lemma_segment_from(segs: Seq<Segment>, index: int, i: int)
    ensures
        segment_from(segs, index, i) == -1 || (i <= segment_from(segs, index, i) < segs.len()
            && segs[segment_from(segs, index, i)].start <= index),
    decreases segs.len() - i,
{
    if 0 <= i < segs.len() && !(segs[i].start <= index < segs[i].end) {
        lemma_segment_from(segs, index, i + 1);
    }
}

/// What a segment of the timeline does; the map key holds its range.
pub struct SegmentTarget {
    pub tween: String,
    pub value: Value,
    pub curve: Curve,
    pub duration: u64,
}

/// The segments of an index map keyed by range, in the map's order.
pub uninterp spec fn indexed_timeline(m: IndexMap<Range<u64>, SegmentTarget>) -> Seq<Segment>;

/// The first segment whose range is `[start, end)`, or -1.
pub open spec fn timeline_position(segs: Seq<Segment>, start: int, end: int) -> int
    decreases segs.len(),
{
    if segs.len() == 0 {
        -1
    } else if timeline_position(segs.drop_last(), start, end) >= 0 {
        timeline_position(segs.drop_last(), start, end)
    } else if segs.last().start == start && segs.last().end == end {
        segs.len() - 1
    } else {
        -1
    }
}

proof fn lemma_timeline_position(segs: Seq<Segment>, start: int, end: int)
    ensures
        timeline_position(segs, start, end) == -1 || (0 <= timeline_position(segs, start, end)
            < segs.len() && segs[timeline_position(segs, start, end)].start == start
            && segs[timeline_position(segs, start, end)].end == end),
    decreases segs.len(),
{
    if segs.len() > 0 {
        lemma_timeline_position(segs.drop_last(), start, end);
    }
}

/// Relies on `IndexMap::new`: a new map is empty.
#[verifier::external_body]
fn timeline_new() -> (m: IndexMap<Range<u64>, SegmentTarget>)
    ensures
        indexed_timeline(m).len() == 0,
{
    IndexMap::new()
}

/// Relies on `IndexMap::len`: the number of key-value pairs.
#[verifier::external_body]
fn timeline_len(m: &IndexMap<Range<u64>, SegmentTarget>) -> (n: usize)
    ensures
        n == indexed_timeline(*m).len(),
{
    m.len()
}

/// Relies on `IndexMap::get_index`: the pair at `index`, present below
/// `len`.
#[verifier::external_body]
fn timeline_get_index(m: &IndexMap<Range<u64>, SegmentTarget>, index: usize) -> (r: (
    &Range<u64>,
    &SegmentTarget,
))
    requires
        index < indexed_timeline(*m).len(),
    ensures
        r.0.start == indexed_timeline(*m)[index as int].start,
        r.0.end == indexed_timeline(*m)[index as int].end,
        r.1.tween == indexed_timeline(*m)[index as int].tween,
        r.1.value == indexed_timeline(*m)[index as int].value,
        r.1.curve == indexed_timeline(*m)[index as int].curve,
        r.1.duration == indexed_timeline(*m)[index as int].duration,
{
    m.get_index(index).unwrap()
}

/// Relies on `IndexMap::insert`: a range already present keeps its place
/// and takes the new target; a new range goes last.
#[verifier::external_body]
fn timeline_insert(m: &mut IndexMap<Range<u64>, SegmentTarget>, key: Range<u64>, target: SegmentTarget)
    ensures
        indexed_timeline(*final(m)) == ({
            let es = indexed_timeline(*old(m));
            let i = timeline_position(es, key.start as int, key.end as int);
            let seg = Segment {
                start: key.start,
                end: key.end,
                tween: target.tween,
                value: target.value,
                curve: target.curve,
                duration: target.duration,
            };
            if i >= 0 {
                es.update(i, seg)
            } else {
                es.push(seg)
            }
        }),
{
    m.insert(key, target);
}

/// The named tweens and the segments that drive them.
pub struct Context {
    pub tweens: TweenSet,
    pub segments: IndexMap<Range<u64>, SegmentTarget>,
    pub duration: u64,
}

/// A segment fits the tween it names, if that tween exists: same kind of
/// value, and a curve and duration that kind can be animated with.
pub open spec fn segment_fits(entries: Seq<Entry>, seg: Segment) -> bool {
    let p = position_of(entries, seg.tween@);
    p >= 0 ==> {
        let k = kind_of(entries[p].tween.value);
        kind_of(seg.value) == k && animates(seg.curve, seg.duration as int, k)
    }
}

/// The entries after one tick at `index`: the segment in force, if its
/// property exists, retargets that tween and advances it by the time since
/// the segment began.
pub open spec fn segmented_step(entries: Seq<Entry>, segs: Seq<Segment>, index: int) -> Seq<Entry> {
    let i = segment_from(segs, index, 0);
    if i < 0 {
        entries
    } else {
        let p = position_of(entries, segs[i].tween@);
        if p < 0 {
            entries
        } else {
            entries.update(
                p,
                Entry {
                    name: entries[p].name,
                    tween: entries[p].tween.stepped(
                        segs[i].curve,
                        segs[i].value,
                        segs[i].duration,
                        index - segs[i].start,
                    ),
                },
            )
        }
    }
}

impl Context {
    /// The segments, in the order they were added.
    pub open spec fn segments_seq(self) -> Seq<Segment> {
        indexed_timeline(self.segments)
    }

    pub open spec fn wf(self) -> bool {
        &&& forall|i: int|
            0 <= i < self.segments_seq().len() ==> #[trigger] self.segments_seq()[i].start
                <= self.segments_seq()[i].end <= self.duration
        &&& self.tweens.wf()
        &&& entries_ok(self.tweens.entries())
        &&& forall|i: int|
            0 <= i < self.segments_seq().len() ==> segment_fits(
                self.tweens.entries(),
                #[trigger] self.segments_seq()[i],
            )
        &&& self.duration as int == if self.segments_seq().len() == 0 {
            0
        } else {
            self.segments_seq().last().end as int
        }
    }

    pub fn new() -> (c: Context)
        ensures
            c.wf(),
            c.tweens.entries().len() == 0,
            c.segments_seq().len() == 0,
            c.duration == 0,
    {
        Context { tweens: TweenSet::new(), segments: timeline_new(), duration: 0 }
    }

    /// Adds a property resting at `value`, or puts an existing property
    /// back at rest there. Segments already naming the property must fit
    /// the new value.
    pub fn add_tween(&mut self, key: String, value: Value)
        requires
            old(self).wf(),
            forall|i: int|
                0 <= i < old(self).segments_seq().len() && (#[trigger] old(self).segments_seq()[i]).tween@
                    == key@ ==> kind_of(old(self).segments_seq()[i].value) == kind_of(value)
                    && animates(
                    old(self).segments_seq()[i].curve,
                    old(self).segments_seq()[i].duration as int,
                    kind_of(value),
                ),
        ensures
            final(self).wf(),
            final(self).segments == old(self).segments,
            final(self).duration == old(self).duration,
            final(self).tweens.entries() == old(self).tweens.inserted(
                key,
                Tween::new_spec(value, value),
            ),
    {
        let tween = Tween::new(value.clone(), value);
        let ghost before = self.tweens.entries();
        let ghost name = key@;
        let ghost k = kind_of(tween.value);
        proof {
            crate::tween_set::lemma_position_from(before, name, 0);
        }
        self.tweens.insert(key, tween);
        proof {
            let after = self.tweens.entries();
            let p = position_of(before, name);
            crate::tween_set::lemma_position_from(after, name, 0);
            assert forall|i: int| 0 <= i < after.len() implies tween_ok(#[trigger] after[i].tween) by {
                if (p >= 0 && i != p) || (p < 0 && i < before.len()) {
                    assert(after[i] == before[i]);
                }
            }
            assert forall|q: int| 0 <= q < self.segments_seq().len() implies segment_fits(
                after,
                #[trigger] self.segments_seq()[q],
            ) by {
                let seg = self.segments_seq()[q];
                assert(segment_fits(before, seg));
                crate::tween_set::lemma_position_from(before, seg.tween@, 0);
                if p >= 0 {
                    assert forall|j: int| 0 <= j < before.len() implies #[trigger] before[j].name@
                        == after[j].name@ by {}
                    crate::tween_set::lemma_same_names(before, after, seg.tween@, 0);
                    let pp = position_of(before, seg.tween@);
                    if pp >= 0 && pp != p {
                        assert(after[pp] == before[pp]);
                    }
                } else {
                    let e = after.last();
                    assert(after == before.push(e));
                    crate::tween_set::lemma_push_finds(before, e, seg.tween@, 0);
                    let pp = position_of(before, seg.tween@);
                    if pp >= 0 {
                        assert(after[pp] == before[pp]);
                    }
                }
            }
        }
    }

    /// Appends a segment for property `tween` that starts where the
    /// previous segment ends (an empty segment at the very end of an empty
    /// one takes its place).
    pub fn add_segment(&mut self, tween: String, value: Value, curve: Curve, duration: u64)
        requires
            old(self).wf(),
            old(self).duration + duration <= u64::MAX,
            segment_fits(
                old(self).tweens.entries(),
                Segment { start: 0, end: 0, tween, value, curve, duration },
            ),
        ensures
            final(self).wf(),
            final(self).tweens == old(self).tweens,
            final(self).duration == old(self).duration + duration,
            final(self).segments_seq() == ({
                let seg = Segment {
                    start: old(self).duration,
                    end: (old(self).duration + duration) as u64,
                    tween,
                    value,
                    curve,
                    duration,
                };
                let i = timeline_position(
                    old(self).segments_seq(),
                    seg.start as int,
                    seg.end as int,
                );
                if i >= 0 {
                    old(self).segments_seq().update(i, seg)
                } else {
                    old(self).segments_seq().push(seg)
                }
            }),
    {
        let n: usize = timeline_len(&self.segments);
        let last: u64 = if n > 0 {
            timeline_get_index(&self.segments, n - 1).0.end
        } else {
            0
        };
        let ghost before = self.segments_seq();
        let ghost entries = self.tweens.entries();
        let ghost new_seg = Segment { start: last, end: (last + duration) as u64, tween, value, curve, duration };
        assert(segment_fits(entries, new_seg));
        proof {
            lemma_timeline_position(before, last as int, last + duration);
        }
        timeline_insert(
            &mut self.segments,
            Range { start: last, end: last + duration },
            SegmentTarget { tween, value, curve, duration },
        );
        self.duration = self.duration + duration;
        proof {
            let after = self.segments_seq();
            let q = timeline_position(before, last as int, last + duration);
            if q >= 0 {
                assert(before[q].end <= old(self).duration);
                assert(after.last().end == before.last().end) by {
                    if q != before.len() - 1 {
                        assert(after.last() == before.last());
                    }
                }
                assert forall|i: int| 0 <= i < after.len() implies #[trigger] after[i].start
                    <= after[i].end <= self.duration by {
                    if i != q {
                        assert(after[i] == before[i]);
                    }
                }
                assert forall|i: int| 0 <= i < after.len() implies segment_fits(
                    self.tweens.entries(),
                    #[trigger] after[i],
                ) by {
                    if i != q {
                        assert(after[i] == before[i]);
                    }
                }
            } else {
                assert forall|i: int| 0 <= i < after.len() implies #[trigger] after[i].start
                    <= after[i].end <= self.duration by {
                    if i < before.len() {
                        assert(after[i] == before[i]);
                    }
                }
                assert forall|i: int| 0 <= i < after.len() implies segment_fits(
                    self.tweens.entries(),
                    #[trigger] after[i],
                ) by {
                    if i < before.len() {
                        assert(after[i] == before[i]);
                    }
                }
            }
        }
    }

    /// Finds the first segment in force at `index`.
    pub fn find_segment(&self, index: u64) -> (r: Option<usize>)
        ensures
            match r {
                Some(i) => i as int == segment_from(self.segments_seq(), index as int, 0),
                None => segment_from(self.segments_seq(), index as int, 0) == -1,
            },
    {
        let n: usize = timeline_len(&self.segments);
        let mut i: usize = 0;
        while i < n
            invariant
                n == self.segments_seq().len(),
                i <= self.segments_seq().len(),
                segment_from(self.segments_seq(), index as int, i as int) == segment_from(
                    self.segments_seq(),
                    index as int,
                    0,
                ),
            decreases self.segments_seq().len() - i,
        {
            let (range, _) = timeline_get_index(&self.segments, i);
            if range.start <= index && index < range.end {
                return Some(i);
            }
            i = i + 1;
        }
        None
    }

    /// Drives the properties at `index` milliseconds; see
    /// [`segmented_step`].
    pub fn advance(&mut self, index: u64)
        requires
            old(self).wf(),
        ensures
            final(self).wf(),
            final(self).segments == old(self).segments,
            final(self).duration == old(self).duration,
            final(self).tweens.entries() == segmented_step(
                old(self).tweens.entries(),
                old(self).segments_seq(),
                index as int,
            ),
    {
        proof {
            lemma_segment_from(self.segments_seq(), index as int, 0);
        }
        let i: usize = match self.find_segment(index) {
            Some(i) => i,
            None => {
                return;
            },
        };
        let (range, seg) = timeline_get_index(&self.segments, i);
        let p: usize = match self.tweens.position(seg.tween.as_str()) {
            Some(p) => p,
            None => {
                return;
            },
        };
        let ghost before = self.tweens.entries();
        assert(segment_fits(before, self.segments_seq()[i as int]));
        let mut tween = self.tweens.tween_at(p).clone();
        assert(tween_ok(before[p as int].tween));
        tween.step(seg.curve, &seg.value, seg.duration, index - range.start);
        self.tweens.set_tween(p, tween);
        proof {
            let after = self.tweens.entries();
            assert forall|k: int| 0 <= k < before.len() implies #[trigger] before[k].name@
                == after[k].name@ by {}
            assert forall|a: int| 0 <= a < after.len() implies tween_ok(#[trigger] after[a].tween) by {
                if a != p {
                    assert(after[a] == before[a]);
                }
            }
            assert forall|a: int, b: int| 0 <= a < b < after.len() implies #[trigger] after[a].name@
                != #[trigger] after[b].name@ by {
                assert(before[a].name@ != before[b].name@);
            }
            assert forall|q: int| 0 <= q < self.segments_seq().len() implies segment_fits(
                after,
                #[trigger] self.segments_seq()[q],
            ) by {
                assert(segment_fits(before, self.segments_seq()[q]));
                crate::tween_set::lemma_same_names(before, after, self.segments_seq()[q].tween@, 0);
                crate::tween_set::lemma_position_from(before, self.segments_seq()[q].tween@, 0);
                let pp = position_of(before, self.segments_seq()[q].tween@);
                if pp >= 0 && pp != p {
                    assert(after[pp] == before[pp]);
                }
            }
        }
    }
}

/// A segmented animation and its playback.
pub struct SegmentedAnimation {
    pub context: Context,
    pub playback: Playback,
}

impl SegmentedAnimation {
    pub open spec fn wf(self) -> bool {
        self.context.wf()
    }

    pub fn new(context: Context) -> (a: SegmentedAnimation)
        ensures
            a.context == context,
            a.playback == Playback::new_spec(),
    {
        SegmentedAnimation { context, playback: Playback::new() }
    }

    pub fn is_playing(&self) -> (r: bool)
        ensures
            r == self.playback.running,
    {
        self.playback.is_playing()
    }

    pub fn peek_has_run_yet(&self) -> (r: bool)
        ensures
            r == self.playback.has_run_yet,
    {
        self.playback.peek_has_run_yet()
    }

    /// The current value of property `key`.
    pub fn get(&self, key: &str) -> (v: Value)
        requires
            self.context.tweens.contains(key@),
        ensures
            v == self.context.tweens.tween_of(key@).value,
    {
        self.context.tweens.value(key).clone()
    }

    /// Starts a run from the beginning of the timeline; returns its token,
    /// which cancels any run before it.
    pub fn play(&mut self) -> (token: u64)
        requires
            old(self).playback.generation < u64::MAX,
        ensures
            final(self).context == old(self).context,
            final(self).playback == old(self).playback.started(),
            token == final(self).playback.generation,
    {
        self.playback.start()
    }

    pub fn cancel(&mut self)
        ensures
            final(self).context == old(self).context,
            final(self).playback == (Playback { active: None, ..old(self).playback }),
    {
        self.playback.cancel();
    }

    /// One clock tick of `delta` milliseconds for the run with `token`.
    /// Returns whether the run goes on: it ends once its elapsed time
    /// reaches the timeline's duration, and a stale token changes nothing.
    pub fn tick(&mut self, token: u64, delta: u64) -> (more: bool)
        requires
            old(self).wf(),
        ensures
            final(self).wf(),
            !old(self).playback.admits(token) ==> *final(self) == *old(self) && !more,
            final(self).context.segments == old(self).context.segments,
            final(self).context.duration == old(self).context.duration,
            old(self).playback.admits(token) ==> {
                let time = old(self).playback.ticked(token, delta).elapsed;
                &&& final(self).context.tweens.entries() == segmented_step(
                    old(self).context.tweens.entries(),
                    old(self).context.segments_seq(),
                    time as int,
                )
                &&& more == (time < old(self).context.duration)
                &&& final(self).playback == if more {
                    old(self).playback.ticked(token, delta)
                } else {
                    old(self).playback.ticked(token, delta).finished(token)
                }
            },
    {
        let elapsed: u64 = match self.playback.tick(token, delta) {
            Some(e) => e,
            None => {
                return false;
            },
        };
        self.context.advance(elapsed);
        if elapsed >= self.context.duration {
            self.playback.finish(token);
            false
        } else {
            true
        }
    }
}

} // verus!
