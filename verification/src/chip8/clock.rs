use std::time::{Duration, Instant};
use vstd::prelude::*;

verus! {

/// A second in nanoseconds.
pub const NANOS_PER_SECOND: u64 = 1_000_000_000;

/// A point of the machine's monotonic clock. Verus sees nothing inside.
#[verifier::external_type_specification]
#[verifier::external_body]
pub struct ExInstant(Instant);

/// `Instant::now` reads the monotonic clock. What it returns depends on
/// when it is called, so nothing is claimed of it.
pub assume_specification[ Instant::now ]() -> Instant;

/// `Instant::elapsed` is the time that passed since the instant was taken,
/// and zero should the clock have gone backwards. It depends on when it is
/// called, so nothing is claimed of it.
pub assume_specification[ Instant::elapsed ](origin: &Instant) -> Duration;

/// `Duration::as_nanos` is the whole span in nanoseconds. A span is opaque
/// here, so nothing is claimed of the number.
pub assume_specification[ Duration::as_nanos ](span: &Duration) -> u128;

/// What a clock holds, in nanoseconds since it was made: the length of its
/// period, and the instant up to which its periods have been handed out.
pub struct Schedule {
    pub period: nat,
    pub offset: nat,
}

impl Schedule {
    /// Whether a poll at `now` fires: a whole period has passed since the
    /// instant up to which periods were handed out.
    pub open spec fn fires(self, now: nat) -> bool {
        now >= self.offset + self.period
    }

    /// The schedule after a poll at `now`: a poll that fires hands out
    /// exactly one period, however late it comes.
    pub open spec fn polled(self, now: nat) -> Schedule {
        if self.fires(now) {
            Schedule { period: self.period, offset: self.offset + self.period }
        } else {
            self
        }
    }

    /// The schedule after polls at each of `times` in turn.
    pub open spec fn polled_all(self, times: Seq<nat>) -> Schedule
        decreases times.len(),
    {
        if times.len() == 0 {
            self
        } else {
            self.polled_all(times.drop_last()).polled(times.last())
        }
    }

    /// How many of the polls at `times` fire.
    pub open spec fn fired(self, times: Seq<nat>) -> nat
        decreases times.len(),
    {
        if times.len() == 0 {
            0
        } else {
            let earlier = self.fired(times.drop_last());
            if self.polled_all(times.drop_last()).fires(times.last()) {
                earlier + 1
            } else {
                earlier
            }
        }
    }
}

impl Schedule {
    /// Never early: a poll made before a whole period has passed does not
    /// fire and leaves the schedule as it was.
    pub proof fn lemma_quiet_before_due(self, now: nat)
        requires
            now < self.offset + self.period,
        ensures
            !self.fires(now),
            self.polled(now) == self,
    {
    }

    /// Silent between fires: after a poll that fires, no poll fires before
    /// the next period has passed as well.
    pub proof fn lemma_quiet_between_fires(self, now: nat, later: nat)
        requires
            self.fires(now),
            later < self.offset + 2 * self.period,
        ensures
            !self.polled(now).fires(later),
            self.polled(now).polled(later) == self.polled(now),
    {
    }

    /// However often a clock is polled before a whole period has passed,
    /// no poll fires and the schedule stays as it was.
    pub proof fn lemma_quiet_polls(self, times: Seq<nat>)
        requires
            forall|i: int| 0 <= i < times.len() ==> times[i] < self.offset + self.period,
        ensures
            self.fired(times) == 0,
            self.polled_all(times) == self,
        decreases times.len(),
    {
        if times.len() > 0 {
            self.lemma_quiet_polls(times.drop_last());
        }
    }

    /// At most one fire per period, and no drift: after any polls, the
    /// schedule has moved on by exactly one period for each poll that
    /// fired, and never past the latest poll. So of polls made no later
    /// than `end`, no more fire than whole periods lie between the
    /// schedule's start and `end`.
    pub proof fn lemma_once_per_period(self, times: Seq<nat>, end: nat)
        requires
            forall|i: int| 0 <= i < times.len() ==> times[i] <= end,
        ensures
            self.polled_all(times).period == self.period,
            self.polled_all(times).offset == self.offset + self.fired(times) * self.period,
            self.fired(times) > 0 ==> self.offset + self.fired(times) * self.period <= end,
        decreases times.len(),
    {
        if times.len() > 0 {
            let earlier = times.drop_last();
            self.lemma_once_per_period(earlier, end);
            let count = self.fired(earlier);
            assert((count + 1) * self.period == count * self.period + self.period)
                by (nonlinear_arith);
        } else {
            assert(0 * self.period == 0) by (nonlinear_arith);
        }
    }
}

/// A gate that opens once per period: it paces the processor and each of
/// the two timers.
pub struct Clock {
    period: u64,
    offset: u128,
    origin: Instant,
}

impl View for Clock {
    type V = Schedule;

    closed spec fn view(&self) -> Schedule {
        Schedule { period: self.period as nat, offset: self.offset as nat }
    }
}

impl Clock {
    /// A clock that fires `freq` times per second, counting from now.
    pub fn new(freq: u16) -> (clock: Clock)
        requires
            freq > 0,
        ensures
            clock@ == (Schedule { period: (NANOS_PER_SECOND / freq as u64) as nat, offset: 0 }),
    {
        Clock { period: NANOS_PER_SECOND / freq as u64, offset: 0, origin: Instant::now() }
    }

    /// Polls the clock at the time `now`, in nanoseconds since the clock
    /// was made: says whether a period has passed and, if so, hands out
    /// that one period.
    pub fn tick_at(&mut self, now: u128) -> (fired: bool)
        ensures
            fired == old(self)@.fires(now as nat),
            final(self)@ == old(self)@.polled(now as nat),
    {
        if now >= self.offset && now - self.offset >= self.period as u128 {
            self.offset += self.period as u128;
            true
        } else {
            false
        }
    }

    /// Polls the clock now. The time is read from the machine's monotonic
    /// clock, so all that is known is that the poll was made at some time.
    pub fn tick(&mut self) -> (fired: bool)
        ensures
            exists|now: nat|
                fired == #[trigger] old(self)@.fires(now) && final(self)@ == old(self)@.polled(
                    now,
                ),
    {
        let now = self.origin.elapsed().as_nanos();
        let fired = self.tick_at(now);
        proof {
            assert(fired == old(self)@.fires(now as nat));
        }
        fired
    }
}

} // verus!
