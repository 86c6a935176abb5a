//! A single property driven through a sequence of timed segments.
use crate::curves::Curve;
use crate::tween::{animates, Tween};
use crate::value::{kind_of, Value, ValueKind};
use indexmap::IndexMap;
use std::ops::Range;
use vstd::prelude::*;

verus! {

/// A stretch of the timeline `[start, end)` in milliseconds, heading for
/// `value` with `curve` over `duration`.
pub struct Segment {
    pub start: u64,
    pub end: u64,
    pub value: Value,
    pub curve: Curve,
    pub duration: u64,
}

/// What a segment heads for; the map key holds its range.
pub struct SegmentTarget {
    pub value: Value,
    pub curve: Curve,
    pub duration: u64,
}

/// The segments of an index map keyed by range, in the map's order.
pub uninterp spec fn indexed_segments(m: IndexMap<Range<u64>, SegmentTarget>) -> Seq<Segment>;

/// The first segment whose range is `[start, end)`, or -1.
pub open spec fn range_position(segs: Seq<Segment>, start: int, end: int) -> int
    decreases segs.len(),
{
    if segs.len() == 0 {
        -1
    } else if range_position(segs.drop_last(), start, end) >= 0 {
        range_position(segs.drop_last(), start, end)
    } else if segs.last().start == start && segs.last().end == end {
        segs.len() - 1
    } else {
        -1
    }
}

proof fn lemma_range_position(segs: Seq<Segment>, start: int, end: int)
    ensures
        range_position(segs, start, end) == -1 || (0 <= range_position(segs, start, end) < segs.len()
            && segs[range_position(segs, start, end)].start == start
            && segs[range_position(segs, start, end)].end == end),
    decreases segs.len(),
{
    if segs.len() > 0 {
        lemma_range_position(segs.drop_last(), start, end);
    }
}

/// Relies on `IndexMap::new`: a new map is empty.
#[verifier::external_body]
fn segment_map_new() -> (m: IndexMap<Range<u64>, SegmentTarget>)
    ensures
        indexed_segments(m).len() == 0,
{
    IndexMap::new()
}

/// Relies on `IndexMap::len`: the number of key-value pairs.
#[verifier::external_body]
fn segment_map_len(m: &IndexMap<Range<u64>, SegmentTarget>) -> (n: usize)
    ensures
        n == indexed_segments(*m).len(),
{
    m.len()
}

/// Relies on `IndexMap::get_index`: the pair at `index`, present below
/// `len`.
#[verifier::external_body]
fn segment_map_get_index(m: &IndexMap<Range<u64>, SegmentTarget>, index: usize) -> (r: (
    &Range<u64>,
    &SegmentTarget,
))
    requires
        index < indexed_segments(*m).len(),
    ensures
        r.0.start == indexed_segments(*m)[index as int].start,
        r.0.end == indexed_segments(*m)[index as int].end,
        r.1.value == indexed_segments(*m)[index as int].value,
        r.1.curve == indexed_segments(*m)[index as int].curve,
        r.1.duration == indexed_segments(*m)[index as int].duration,
{
    m.get_index(index).unwrap()
}

/// Relies on `IndexMap::insert`: a range already present keeps its place
/// and takes the new target; a new range goes last.
#[verifier::external_body]
fn segment_map_insert(
    m: &mut IndexMap<Range<u64>, SegmentTarget>,
    key: Range<u64>,
    target: SegmentTarget,
)
    ensures
        indexed_segments(*final(m)) == ({
            let es = indexed_segments(*old(m));
            let i = range_position(es, key.start as int, key.end as int);
            let seg = Segment {
                start: key.start,
                end: key.end,
                value: target.value,
                curve: target.curve,
                duration: target.duration,
            };
            if i >= 0 {
                es.update(i, seg)
            } else {
                es.push(seg)
            }
        }),
{
    m.insert(key, target);
}

/// Segments laid end to end, each one after the previous, possibly with a
/// gap before it.
pub struct PathAnimation {
    pub initial_value: Option<Value>,
    pub segments: IndexMap<Range<u64>, SegmentTarget>,
    pub duration: u64,
}

/// Where the last segment ends, or 0 without segments.
pub open spec fn segments_end(segs: Seq<Segment>) -> int {
    if segs.len() == 0 {
        0
    } else {
        segs.last().end as int
    }
}

pub open spec fn covers(seg: Segment, index: int) -> bool {
    seg.start <= index < seg.end
}

/// The first segment at or after `i` whose range holds `index`, or -1.
pub open spec fn find_from(segs: Seq<Segment>, index: int, i: int) -> int
    decreases segs.len() - i,
{
    if i < 0 || i >= segs.len() {
        -1
    } else if covers(segs[i], index) {
        i
    } else {
        find_from(segs, index, i + 1)
    }
}

/// The first segment whose range holds `index`, or -1.
pub open spec fn segment_at(segs: Seq<Segment>, index: int) -> int {
    find_from(segs, index, 0)
}

/// A tween after one tick at `index` of the segments `segs`: the segment in
/// force retargets it and advances it by the time since that segment began;
/// with none in force it stays as it is.
pub open spec fn path_step(segs: Seq<Segment>, tw: Tween, index: int) -> Tween {
    let i = segment_at(segs, index);
    if i < 0 {
        tw
    } else {
        tw.stepped(segs[i].curve, segs[i].value, segs[i].duration, index - segs[i].start)
    }
}

pub proof fn lemma_find_from_bounds(segs: Seq<Segment>, index: int, i: int)
    ensures
        find_from(segs, index, i) == -1 || (i <= find_from(segs, index, i) < segs.len() && covers(
            segs[find_from(segs, index, i)],
            index,
        )),
    decreases segs.len() - i,
{
    if 0 <= i < segs.len() && !covers(segs[i], index) {
        lemma_find_from_bounds(segs, index, i + 1);
    }
}

/// At the first millisecond of a segment the tween heads for that
/// segment's value with its curve and duration, and its value stays where
/// the previous segment left it: a new segment starts without a jump.
pub proof fn lemma_segment_starts_in_place(segs: Seq<Segment>, tw: Tween, index: int)
    requires
        segment_at(segs, index) >= 0,
        segs[segment_at(segs, index)].start == index,
        tw.delay == 0,
    ensures
        ({
            let seg = segs[segment_at(segs, index)];
            let after = path_step(segs, tw, index);
            &&& after.value == tw.value
            &&& after.curve == seg.curve
            &&& after.duration == seg.duration
            &&& crate::value::same_value(tw.destination, seg.value) || (after.destination == seg.value
                && after.origin == tw.value)
        }),
{
}

impl PathAnimation {
    /// The segments, in the order they were inserted.
    pub open spec fn segments_seq(self) -> Seq<Segment> {
        indexed_segments(self.segments)
    }

    /// The timeline's duration is where its segments end, and none ends
    /// after it or before it starts.
    pub open spec fn wf(self) -> bool {
        &&& self.duration == segments_end(self.segments_seq())
        &&& forall|i: int|
            0 <= i < self.segments_seq().len() ==> #[trigger] self.segments_seq()[i].start
                <= self.segments_seq()[i].end <= self.duration
    }

    /// Every segment heads for a value of kind `k` in a way that kind can be
    /// animated.
    pub open spec fn fits(self, k: ValueKind) -> bool {
        forall|i: int|
            0 <= i < self.segments_seq().len() ==> kind_of(#[trigger] self.segments_seq()[i].value) == k
                && animates(self.segments_seq()[i].curve, self.segments_seq()[i].duration as int, k)
    }

    /// The segments after inserting `seg`: a segment with the same range
    /// takes its place, otherwise it goes last.
    pub open spec fn inserted_seq(self, seg: Segment) -> Seq<Segment> {
        let i = range_position(self.segments_seq(), seg.start as int, seg.end as int);
        if i >= 0 {
            self.segments_seq().update(i, seg)
        } else {
            self.segments_seq().push(seg)
        }
    }

    pub fn new() -> (p: PathAnimation)
        ensures
            p.wf(),
            p.initial_value.is_none(),
            p.segments_seq().len() == 0,
            p.duration == 0,
    {
        PathAnimation { initial_value: None, segments: segment_map_new(), duration: 0 }
    }

    /// Sets the value the property starts from.
    pub fn initial(self, value: Value) -> (p: PathAnimation)
        ensures
            p == (PathAnimation { initial_value: Some(value), ..self }),
    {
        PathAnimation { initial_value: Some(value), ..self }
    }

    /// Appends a segment that starts where the previous one ends (an empty
    /// segment at the very end of an empty one takes its place).
    pub fn insert(self, value: Value, curve: Curve, duration: u64) -> (p: PathAnimation)
        requires
            self.wf(),
            self.duration + duration <= u64::MAX,
        ensures
            p.wf(),
            p.initial_value == self.initial_value,
            p.duration == self.duration + duration,
            p.segments_seq() == self.inserted_seq(
                Segment {
                    start: self.duration,
                    end: (self.duration + duration) as u64,
                    value,
                    curve,
                    duration,
                },
            ),
    {
        self.insert_delayed(value, curve, duration, 0)
    }

    /// Appends a segment that starts `delay` milliseconds after the
    /// previous one ends; the property rests during the gap.
    pub fn insert_delayed(self, value: Value, curve: Curve, duration: u64, delay: u64) -> (p:
        PathAnimation)
        requires
            self.wf(),
            self.duration + duration + delay <= u64::MAX,
        ensures
            p.wf(),
            p.initial_value == self.initial_value,
            p.duration == self.duration + duration + delay,
            p.segments_seq() == self.inserted_seq(
                Segment {
                    start: (self.duration + delay) as u64,
                    end: (self.duration + delay + duration) as u64,
                    value,
                    curve,
                    duration,
                },
            ),
    {
        let n: usize = segment_map_len(&self.segments);
        let last: u64 = if n > 0 {
            segment_map_get_index(&self.segments, n - 1).0.end
        } else {
            0
        };
        let ghost before = self.segments_seq();
        let ghost key_start = last + delay;
        let ghost key_end = last + delay + duration;
        proof {
            lemma_range_position(before, key_start as int, key_end as int);
        }
        let mut segments = self.segments;
        segment_map_insert(
            &mut segments,
            Range { start: last + delay, end: last + delay + duration },
            SegmentTarget { value, curve, duration },
        );
        let p = PathAnimation {
            initial_value: self.initial_value,
            segments,
            duration: self.duration + duration + delay,
        };
        proof {
            let after = p.segments_seq();
            let q = range_position(before, key_start as int, key_end as int);
            if q >= 0 {
                assert(before[q].end <= self.duration);
                assert(delay == 0 && duration == 0);
                assert(after.last().end == before.last().end) by {
                    if q != before.len() - 1 {
                        assert(after.last() == before.last());
                    }
                }
                assert forall|i: int| 0 <= i < after.len() implies #[trigger] after[i].start
                    <= after[i].end <= p.duration by {
                    if i != q {
                        assert(after[i] == before[i]);
                    }
                }
            } else {
                assert forall|i: int| 0 <= i < after.len() implies #[trigger] after[i].start
                    <= after[i].end <= p.duration by {
                    if i < before.len() {
                        assert(after[i] == before[i]);
                    }
                }
            }
        }
        p
    }

    /// Finds the first segment in force at `index`.
    pub fn find_segment(&self, index: u64) -> (r: Option<usize>)
        ensures
            match r {
                Some(i) => i as int == segment_at(self.segments_seq(), index as int),
                None => segment_at(self.segments_seq(), index as int) == -1,
            },
    {
        let n: usize = segment_map_len(&self.segments);
        let mut i: usize = 0;
        while i < n
            invariant
                i <= n,
                n == self.segments_seq().len(),
                find_from(self.segments_seq(), index as int, i as int) == segment_at(
                    self.segments_seq(),
                    index as int,
                ),
            decreases n - i,
        {
            let (range, _) = segment_map_get_index(&self.segments, i);
            if range.start <= index && index < range.end {
                return Some(i);
            }
            i = i + 1;
        }
        None
    }

    pub fn get_duration(&self) -> (d: u64)
        ensures
            d == self.duration,
    {
        self.duration
    }

    /// Puts the tween at the initial value, if one was given.
    pub fn init(&self, tween: &mut Tween)
        ensures
            match self.initial_value {
                Some(v) => *final(tween) == (Tween { origin: v, value: v, ..*old(tween) }),
                None => *final(tween) == *old(tween),
            },
    {
        match &self.initial_value {
            Some(v) => tween.set(v.clone()),
            None => {},
        }
    }

    /// Drives the tween at `index` milliseconds; see [`path_step`].
    pub fn advance(&self, tween: &mut Tween, index: u64)
        requires
            self.fits(kind_of(old(tween).value)),
            old(tween).of_kind(kind_of(old(tween).value)),
        ensures
            *final(tween) == path_step(self.segments_seq(), *old(tween), index as int),
            final(tween).of_kind(kind_of(old(tween).value)),
    {
        match self.find_segment(index) {
            Some(i) => {
                proof {
                    lemma_find_from_bounds(self.segments_seq(), index as int, 0);
                }
                let (range, target) = segment_map_get_index(&self.segments, i);
                tween.step(target.curve, &target.value, target.duration, index - range.start);
            },
            None => {},
        }
    }
}

} // verus!
