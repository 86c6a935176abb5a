//! A single property driven through keyframes at fractions of a duration.
use crate::curves::Curve;
use crate::fixed::ONE;
use crate::tween::Tween;
use crate::value::{kind_of, Value, ValueKind};
use vstd::prelude::*;

verus! {

/// A keyframe: at `position` (a fraction of the duration, `ONE` being the
/// end) the property heads for `value`, eased with `curve`, or jumping
/// there without one.
pub struct Frame {
    pub position: i64,
    pub value: Value,
    pub curve: Option<Curve>,
}

/// Keyframes in the order they were added, with a cursor on the frame in
/// force.
pub struct KeyFrameAnimation {
    pub frames: Vec<Frame>,
    pub current_frame: Option<usize>,
    pub duration: u64,
}

/// The frames are in order of position.
pub open spec fn sorted(frames: Seq<Frame>) -> bool {
    forall|i: int, j: int| 0 <= i <= j < frames.len() ==> frames[i].position <= frames[j].position
}

/// The last of the first `n` frames whose position is at most `time`, or -1.
pub open spec fn last_at_or_before(frames: Seq<Frame>, time: int, n: int) -> int
    decreases n,
{
    if n <= 0 {
        -1
    } else if frames[n - 1].position <= time {
        n - 1
    } else {
        last_at_or_before(frames, time, n - 1)
    }
}

/// The frame in force at normalized `time`: the last one at or before it.
pub open spec fn bracket(frames: Seq<Frame>, time: int) -> int {
    last_at_or_before(frames, time, frames.len() as int)
}

/// Normalized time of `index` milliseconds into `duration`, `ONE` being the
/// end; a zero duration is over at once.
pub open spec fn normalized_time(index: int, duration: int) -> int {
    if duration == 0 {
        ONE as int
    } else if index * ONE / duration > i64::MAX {
        i64::MAX as int
    } else {
        index * ONE / duration
    }
}

/// The curve a frame eases with: none means a jump.
pub open spec fn frame_curve(f: Frame) -> Curve {
    match f.curve {
        Some(c) => c,
        None => Curve::Snap,
    }
}

/// A frame heads for a value of kind `k` in a way that kind can be
/// animated.
pub open spec fn frame_fits(f: Frame, k: ValueKind) -> bool {
    &&& kind_of(f.value) == k
    &&& frame_curve(f).wf()
    &&& (frame_curve(f) is Snap || k != ValueKind::Gradient)
}

/// In sorted frames, frames past one that is later than `time` change
/// nothing.
proof fn lemma_last_stops(frames: Seq<Frame>, time: int, j: int, n: int)
    requires
        sorted(frames),
        0 <= j <= n <= frames.len(),
        j < frames.len(),
        frames[j].position > time,
    ensures
        last_at_or_before(frames, time, n) == last_at_or_before(frames, time, j),
    decreases n - j,
{
    if n > j {
        lemma_last_stops(frames, time, j, n - 1);
    }
}

proof fn lemma_last_range(frames: Seq<Frame>, time: int, n: int)
    requires
        0 <= n <= frames.len(),
    ensures
        -1 <= last_at_or_before(frames, time, n) < n,
        last_at_or_before(frames, time, n) >= 0 ==> frames[last_at_or_before(frames, time, n)].position <= time,
    decreases n,
{
    if n > 0 {
        lemma_last_range(frames, time, n - 1);
    }
}

/// Moves the cursor from frame `k` to the frame in force at `time`,
/// scanning backward when `k` lies after `time` and forward otherwise.
fn locate_from(frames: &Vec<Frame>, k: usize, time: i64) -> (r: Option<usize>)
    requires
        k < frames.len(),
    ensures
        match r {
            Some(i) => i < frames.len(),
            None => true,
        },
        sorted(frames@) && frames@[0].position <= time ==> r == Some(
            bracket(frames@, time as int) as usize,
        ),
{
    let ghost fs = frames@;
    proof {
        lemma_last_range(fs, time as int, fs.len() as int);
    }
    if frames[k].position > time {
        proof {
            if sorted(fs) {
                lemma_last_stops(fs, time as int, k as int, fs.len() as int);
            }
        }
        let mut cur: Option<usize> = Some(k);
        let mut i: usize = k;
        while i > 0
            invariant
                i <= k < frames.len(),
                fs == frames@,
                fs[k as int].position > time,
                match cur {
                    Some(c) => c < frames.len(),
                    None => true,
                },
                fs[i as int].position > time,
                sorted(fs) ==> bracket(fs, time as int) == last_at_or_before(fs, time as int, i as int),
            decreases i,
        {
            i = i - 1;
            if frames[i].position <= time {
                return Some(i);
            }
            cur = None;
        }
        cur
    } else {
        let mut cur: usize = k;
        let mut i: usize = k + 1;
        while i < frames.len()
            invariant
                k < i <= frames.len(),
                cur == i - 1,
                fs == frames@,
                fs[cur as int].position <= time,
                last_at_or_before(fs, time as int, i as int) == i - 1,
            decreases frames.len() - i,
        {
            if frames[i].position > time {
                proof {
                    if sorted(fs) {
                        lemma_last_stops(fs, time as int, i as int, fs.len() as int);
                    }
                }
                return Some(cur);
            }
            cur = i;
            i = i + 1;
        }
        Some(cur)
    }
}

impl KeyFrameAnimation {
    /// The cursor, if any, is on a frame.
    pub open spec fn wf(self) -> bool {
        match self.current_frame {
            Some(k) => k < self.frames@.len(),
            None => true,
        }
    }

    /// Every frame heads for a value of kind `k` in a way that kind can be
    /// animated.
    pub open spec fn fits(self, k: ValueKind) -> bool {
        forall|i: int| 0 <= i < self.frames@.len() ==> frame_fits(#[trigger] self.frames@[i], k)
    }

    pub fn new() -> (a: KeyFrameAnimation)
        ensures
            a.wf(),
            a.frames@.len() == 0,
            a.current_frame.is_none(),
            a.duration == 0,
    {
        KeyFrameAnimation { frames: Vec::new(), current_frame: None, duration: 0 }
    }

    /// Adds a frame after those already there.
    pub fn keyframe_at(self, position: i64, value: Value, curve: Option<Curve>) -> (a:
        KeyFrameAnimation)
        requires
            self.wf(),
        ensures
            a.wf(),
            a.frames@ == self.frames@.push(Frame { position, value, curve }),
            a.current_frame == self.current_frame,
            a.duration == self.duration,
    {
        let mut frames = self.frames;
        frames.push(Frame { position, value, curve });
        KeyFrameAnimation { frames, current_frame: self.current_frame, duration: self.duration }
    }

    pub fn duration(self, duration: u64) -> (a: KeyFrameAnimation)
        ensures
            a == (KeyFrameAnimation { duration, ..self }),
    {
        KeyFrameAnimation { duration, ..self }
    }

    pub fn get_duration(&self) -> (d: u64)
        ensures
            d == self.duration,
    {
        self.duration
    }

    /// Points the cursor at the frame in force at normalized `time`: the
    /// first frame at 0, the last at `ONE`, and in between, for frames in
    /// order of position, the last one at or before `time`.
    pub fn update_current_keyframe(&mut self, time: i64)
        requires
            old(self).wf(),
        ensures
            final(self).wf(),
            final(self).frames == old(self).frames,
            final(self).duration == old(self).duration,
            old(self).frames@.len() == 0 ==> final(self).current_frame == old(self).current_frame,
            old(self).frames@.len() > 0 && time == 0 ==> final(self).current_frame == Some(0usize),
            old(self).frames@.len() > 0 && time == ONE ==> final(self).current_frame == Some(
                (old(self).frames@.len() - 1) as usize,
            ),
            old(self).frames@.len() > 0 && time != 0 && time != ONE && sorted(old(self).frames@)
                && old(self).frames@[0].position <= time ==> final(self).current_frame == Some(
                bracket(old(self).frames@, time as int) as usize,
            ),
    {
        let n: usize = self.frames.len();
        if n == 0 {
            return;
        }
        proof {
            lemma_last_range(self.frames@, time as int, n as int);
        }
        if time == 0 {
            self.current_frame = Some(0);
            return;
        }
        if time == ONE {
            self.current_frame = Some(n - 1);
            return;
        }
        let k: usize = match self.current_frame {
            Some(k) => k,
            None => 0,
        };
        self.current_frame = locate_from(&self.frames, k, time);
    }

    /// Drives the tween at `index` milliseconds: the frame in force sets the
    /// curve and the destination, and the tween advances to `index`.
    pub fn advance(&mut self, tween: &mut Tween, index: u64)
        requires
            old(self).wf(),
            old(self).fits(kind_of(old(tween).value)),
            old(tween).of_kind(kind_of(old(tween).value)),
        ensures
            final(self).wf(),
            final(self).frames == old(self).frames,
            final(self).duration == old(self).duration,
            final(tween).of_kind(kind_of(old(tween).value)),
            match final(self).current_frame {
                Some(f) => *final(tween) == old(tween).stepped(
                    frame_curve(old(self).frames@[f as int]),
                    old(self).frames@[f as int].value,
                    old(tween).duration,
                    index as int,
                ),
                None => *final(tween) == *old(tween),
            },
            old(self).frames@.len() > 0 && normalized_time(index as int, old(self).duration as int)
                == 0 ==> final(self).current_frame == Some(0usize),
            old(self).frames@.len() > 0 && normalized_time(index as int, old(self).duration as int)
                == ONE ==> final(self).current_frame == Some((old(self).frames@.len() - 1) as usize),
            ({
                let time = normalized_time(index as int, old(self).duration as int);
                old(self).frames@.len() > 0 && time != 0 && time != ONE && sorted(old(self).frames@)
                    && old(self).frames@[0].position <= time
            }) ==> final(self).current_frame == Some(
                bracket(old(self).frames@, normalized_time(index as int, old(self).duration as int))
                    as usize,
            ),
    {
        let time: i64 = if self.duration == 0 {
            ONE
        } else {
            let t: u128 = index as u128 * ONE as u128 / self.duration as u128;
            if t > i64::MAX as u128 {
                i64::MAX
            } else {
                t as i64
            }
        };
        self.update_current_keyframe(time);
        match self.current_frame {
            Some(f) => {
                let frame = &self.frames[f];
                let curve = match frame.curve {
                    Some(c) => c,
                    None => Curve::Snap,
                };
                assert(frame_fits(self.frames@[f as int], kind_of(tween.value)));
                let d: u64 = tween.duration;
                tween.step(curve, &frame.value, d, index);
            },
            None => {},
        }
    }
}

} // verus!
