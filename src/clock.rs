use vstd::prelude::*;

verus! {

/// Why a clock was refused its update interval.
#[derive(Debug, Clone, Copy, PartialEq, Eq, Structural)]
pub enum ClockError {
    /// An update interval must be longer than zero.
    NonPositiveInterval,
}

/// What a clock holds, in nanoseconds: the time between two generations and
/// the time gathered towards the next one.
pub ghost struct ClockView {
    pub interval: nat,
    pub elapsed: nat,
}

/// Gathers elapsed time and tells when a generation is due, carrying the
/// remainder over so that no time is lost.
pub struct SimulationClock {
    interval: u64,
    elapsed: u64,
}

impl View for SimulationClock {
    type V = ClockView;

    closed spec fn view(&self) -> ClockView {
        ClockView { interval: self.interval as nat, elapsed: self.elapsed as nat }
    }
}

impl SimulationClock {
    /// The interval is never zero.
    pub open spec fn wf(&self) -> bool {
        self@.interval > 0
    }

    /// A clock with nothing gathered yet; refused for a zero interval.
    pub fn new(interval: u64) -> (r: Result<SimulationClock, ClockError>)
        ensures
            interval == 0 <==> r is Err,
            r is Err ==> r == Err::<SimulationClock, ClockError>(ClockError::NonPositiveInterval),
            r matches Ok(c) ==> c.wf() && c@ == (ClockView { interval: interval as nat, elapsed: 0 }),
    {
        if interval == 0 {
            Err(ClockError::NonPositiveInterval)
        } else {
            Ok(SimulationClock { interval, elapsed: 0 })
        }
    }

    /// The time between two generations, in nanoseconds.
    pub fn interval(&self) -> (r: u64)
        ensures
            r == self@.interval,
    {
        self.interval
    }

    /// The time gathered towards the next generation, in nanoseconds.
    pub fn elapsed(&self) -> (r: u64)
        ensures
            r == self@.elapsed,
    {
        self.elapsed
    }

    /// Replaces the interval and keeps what was gathered; a zero interval is
    /// refused and leaves the clock as it was.
    pub fn set_interval(&mut self, interval: u64) -> (r: Result<(), ClockError>)
        requires
            old(self).wf(),
        ensures
            final(self).wf(),
            interval == 0 ==> r == Err::<(), ClockError>(ClockError::NonPositiveInterval)
                && final(self)@ == old(self)@,
            interval > 0 ==> r is Ok && final(self)@ == (ClockView {
                interval: interval as nat,
                elapsed: old(self)@.elapsed,
            }),
    {
        if interval == 0 {
            Err(ClockError::NonPositiveInterval)
        } else {
            self.interval = interval;
            Ok(())
        }
    }

    /// Adds `delta` nanoseconds to the time gathered.
    pub fn advance(&mut self, delta: u64)
        requires
            old(self)@.elapsed + delta <= u64::MAX,
        ensures
            final(self)@ == (ClockView {
                interval: old(self)@.interval,
                elapsed: old(self)@.elapsed + delta as nat,
            }),
    {
        self.elapsed = self.elapsed + delta;
    }

    /// When a whole interval has been gathered, spends it and says that one
    /// generation is due; otherwise changes nothing.
    pub fn consume_due_step(&mut self) -> (due: bool)
        ensures
            due == (old(self)@.elapsed >= old(self)@.interval),
            due ==> final(self)@ == (ClockView {
                interval: old(self)@.interval,
                elapsed: (old(self)@.elapsed - old(self)@.interval) as nat,
            }),
            !due ==> final(self)@ == old(self)@,
    {
        if self.elapsed >= self.interval {
            self.elapsed = self.elapsed - self.interval;
            true
        } else {
            false
        }
    }
}

} // verus!
