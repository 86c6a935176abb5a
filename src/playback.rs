//! The lifecycle shared by the timeline engines: at most one activity runs
//! at a time, and starting a new one cancels the one before.
//!
//! The host runs each activity as a loop of clock ticks. `start` hands out
//! a token; the host passes that token with each tick, and a tick whose
//! token is no longer current changes nothing, so an activity that was
//! replaced can never write.
use vstd::prelude::*;

verus! {

pub struct Playback {
    /// The token of the last activity started.
    pub generation: u64,
    /// The token of the activity allowed to run, if any.
    pub active: Option<u64>,
    /// Milliseconds summed over the current activity's ticks.
    pub elapsed: u64,
    pub running: bool,
    pub has_run_yet: bool,
}

impl Playback {
    /// The state after [`Playback::start`].
    pub open spec fn started(self) -> Playback {
        Playback {
            generation: (self.generation + 1) as u64,
            active: Some((self.generation + 1) as u64),
            elapsed: 0,
            running: true,
            has_run_yet: true,
        }
    }

    /// Whether a tick with `token` belongs to the running activity.
    pub open spec fn admits(self, token: u64) -> bool {
        self.active == Some(token)
    }

    /// The state after [`Playback::tick`]: only the running activity's
    /// clock moves, saturating at the largest `u64`.
    pub open spec fn ticked(self, token: u64, delta: u64) -> Playback {
        if self.admits(token) {
            let e = self.elapsed + delta;
            Playback {
                elapsed: if e > u64::MAX {
                    u64::MAX
                } else {
                    e as u64
                },
                ..self
            }
        } else {
            self
        }
    }

    /// The state after [`Playback::finish`].
    pub open spec fn finished(self, token: u64) -> Playback {
        if self.admits(token) {
            Playback { active: None, running: false, ..self }
        } else {
            self
        }
    }

    pub open spec fn new_spec() -> Playback {
        Playback { generation: 0, active: None, elapsed: 0, running: false, has_run_yet: false }
    }

    pub fn new() -> (p: Playback)
        ensures
            p == Playback::new_spec(),
    {
        Playback { generation: 0, active: None, elapsed: 0, running: false, has_run_yet: false }
    }

    /// Cancels the running activity, if any, and starts a new one; returns
    /// its token.
    pub fn start(&mut self) -> (token: u64)
        requires
            old(self).generation < u64::MAX,
        ensures
            *final(self) == old(self).started(),
            token == final(self).generation,
            token > old(self).generation,
    {
        self.generation = self.generation + 1;
        self.active = Some(self.generation);
        self.elapsed = 0;
        self.running = true;
        self.has_run_yet = true;
        self.generation
    }

    pub fn admits_token(&self, token: u64) -> (r: bool)
        ensures
            r == self.admits(token),
    {
        match self.active {
            Some(a) => a == token,
            None => false,
        }
    }

    /// Adds `delta` milliseconds to the running activity's clock and
    /// returns the new elapsed time, or `None` for a stale token.
    pub fn tick(&mut self, token: u64, delta: u64) -> (r: Option<u64>)
        ensures
            *final(self) == old(self).ticked(token, delta),
            r == (if old(self).admits(token) {
                Some(final(self).elapsed)
            } else {
                None
            }),
    {
        if self.admits_token(token) {
            self.elapsed = self.elapsed.saturating_add(delta);
            Some(self.elapsed)
        } else {
            None
        }
    }

    /// Ends the activity with `token` if it is still the running one.
    pub fn finish(&mut self, token: u64)
        ensures
            *final(self) == old(self).finished(token),
    {
        if self.admits_token(token) {
            self.active = None;
            self.running = false;
        }
    }

    /// Cancels the running activity, if any.
    pub fn cancel(&mut self)
        ensures
            *final(self) == (Playback { active: None, ..*old(self) }),
    {
        self.active = None;
    }

    pub fn is_playing(&self) -> (r: bool)
        ensures
            r == self.running,
    {
        self.running
    }

    pub fn peek_has_run_yet(&self) -> (r: bool)
        ensures
            r == self.has_run_yet,
    {
        self.has_run_yet
    }
}

/// Starting twice leaves exactly one activity allowed to run, the second:
/// ticks and a finish carrying the first token change nothing.
pub proof fn lemma_replay_cancels_previous(p: Playback, delta: u64)
    requires
        p.generation < u64::MAX - 1,
    ensures
        ({
            let first = p.started();
            let second = first.started();
            let old_token = first.generation;
            let new_token = second.generation;
            &&& old_token != new_token
            &&& !second.admits(old_token)
            &&& second.admits(new_token)
            &&& second.ticked(old_token, delta) == second
            &&& second.finished(old_token) == second
        }),
{
}

/// A tick never makes a stale token current again.
pub proof fn lemma_tick_keeps_owner(p: Playback, token: u64, delta: u64, other: u64)
    ensures
        p.ticked(token, delta).admits(other) == p.admits(other),
        p.ticked(token, delta).generation == p.generation,
{
}

} // verus!
