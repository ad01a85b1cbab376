//! Fixed-timestep scheduling: elapsed real time is gathered in an
//! accumulator and spent in whole ticks of simulation.
use vstd::prelude::*;
use vstd::arithmetic::div_mod::{lemma_basic_div_specific_divisor, lemma_div_minus_one};
use crate::control::{ControlState, Event, transition};

verus! {

/// One simulation tick in nanoseconds: thirty ticks per second.
pub const TICK_NANOS: u64 = 33333333;

/// The time gathered but not yet simulated, and the length of a tick, both
/// in nanoseconds.
pub struct FrameClock {
    pub acc: u64,
    pub dt: u64,
}

/// What the loop does after one sub-step.
#[derive(Clone, Copy, Debug, PartialEq, Eq, Structural)]
pub enum Step {
    /// A tick was simulated; the next sub-step may follow.
    Continue,
    /// The simulation is paused: draw the frame now.
    Render,
    /// The player quit: leave without drawing.
    Exit,
}

impl FrameClock {
    pub open spec fn wf(&self) -> bool {
        self.dt > 0
    }

    /// A clock with nothing gathered.
    pub fn new(dt: u64) -> (r: FrameClock)
        requires
            dt > 0,
        ensures
            r.wf(),
            r.acc == 0,
            r.dt == dt,
    {
        FrameClock { acc: 0, dt }
    }

    /// Gathers `elapsed` nanoseconds, saturating at the largest `u64`.
    pub fn add_elapsed(&mut self, elapsed: u64)
        ensures
            final(self).dt == old(self).dt,
            old(self).acc + elapsed <= u64::MAX ==> final(self).acc == old(self).acc + elapsed,
            old(self).acc + elapsed > u64::MAX ==> final(self).acc == u64::MAX,
    {
        if self.acc <= u64::MAX - elapsed {
            self.acc = self.acc + elapsed;
        } else {
            self.acc = u64::MAX;
        }
    }

    /// Whether a whole tick has been gathered.
    pub fn tick_due(&self) -> (r: bool)
        ensures
            r == (self.acc >= self.dt),
    {
        self.acc >= self.dt
    }

    /// Spends one tick on simulation.
    pub fn consume_tick(&mut self)
        requires
            old(self).acc >= old(self).dt,
        ensures
            final(self).dt == old(self).dt,
            final(self).acc == old(self).acc - old(self).dt,
    {
        self.acc = self.acc - self.dt;
    }

    /// Drops every whole tick gathered, so that a pause does not turn into
    /// a burst of catch-up ticks once play resumes.
    pub fn drop_ticks(&mut self)
        requires
            old(self).wf(),
        ensures
            final(self).dt == old(self).dt,
            final(self).acc == old(self).acc % old(self).dt,
    {
        self.acc = self.acc % self.dt;
    }
}

/// How many ticks one frame simulates, starting with `acc` gathered in
/// state `s`, when the polls of its sub-steps read `events` in order: a
/// sub-step runs while a tick is due, and simulates only if the state after
/// its event is `Playing`; otherwise the frame's sub-steps end there.
pub open spec fn frame_updates(acc: nat, dt: nat, s: ControlState, events: Seq<Event>) -> nat
    decreases events.len(),
{
    if dt == 0 || acc < dt || events.len() == 0 {
        0
    } else {
        let next = transition(s, events[0]);
        if next == ControlState::Playing {
            1 + frame_updates((acc - dt) as nat, dt, next, events.drop_first())
        } else {
            0
        }
    }
}

/// Events that neither pause nor stop the simulation.
pub open spec fn keeps_playing(events: Seq<Event>) -> bool {
    forall|i: int| 0 <= i < events.len() ==> #[trigger] events[i] != Event::Pause && events[i]
        != Event::Quit
}

/// A frame that starts with `t` nanoseconds gathered and keeps playing
/// simulates exactly `t / dt` ticks, rounded down.
pub proof fn lemma_playing_frame(t: nat, dt: nat, events: Seq<Event>)
    requires
        dt > 0,
        events.len() >= t / dt,
        keeps_playing(events),
    ensures
        frame_updates(t, dt, ControlState::Playing, events) == t / dt,
    decreases events.len(),
{
    if t < dt {
        lemma_basic_div_specific_divisor(dt as int);
    } else {
        lemma_div_minus_one(t as int, dt as int);
        assert(t / dt >= 1) by {
            lemma_basic_div_specific_divisor(dt as int);
            assert(-1 + t / dt == (-(dt as int) + t) / dt as int);
            vstd::arithmetic::div_mod::lemma_div_pos_is_pos(t - dt, dt as int);
        }
        let rest = events.drop_first();
        assert(keeps_playing(rest)) by {
            assert forall|i: int| 0 <= i < rest.len() implies #[trigger] rest[i] != Event::Pause
                && rest[i] != Event::Quit by {
                assert(rest[i] == events[i + 1]);
            }
        }
        assert(events[0] != Event::Pause && events[0] != Event::Quit);
        lemma_playing_frame((t - dt) as nat, dt, rest);
    }
}

/// Once a poll pauses or stops the simulation, the frame simulates no
/// further tick: with that event at position `k`, at most `k` ticks run.
pub proof fn lemma_halt_ends_frame(acc: nat, dt: nat, s: ControlState, events: Seq<Event>, k: int)
    requires
        0 <= k < events.len(),
        events[k] == Event::Pause || events[k] == Event::Quit,
    ensures
        frame_updates(acc, dt, s, events) <= k,
    decreases k,
{
    if k > 0 && dt > 0 && acc >= dt {
        let next = transition(s, events[0]);
        if next == ControlState::Playing {
            let rest = events.drop_first();
            assert(rest[k - 1] == events[k]);
            lemma_halt_ends_frame((acc - dt) as nat, dt, next, rest, k - 1);
        }
    }
}

} // verus!
