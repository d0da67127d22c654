//! Instants on the UTC time line, counted in nanoseconds since the Unix
//! epoch, and the clock of the simulation.

use vstd::prelude::*;

verus! {

/// Nanoseconds in a second.
pub const NANOS_PER_SECOND: u32 = 1_000_000_000;

/// The whole seconds in a span of `nanos` nanoseconds, rounded toward zero.
pub open spec fn whole_seconds(nanos: int) -> int {
    if nanos >= 0 {
        nanos / (NANOS_PER_SECOND as int)
    } else {
        -((-nanos) / (NANOS_PER_SECOND as int))
    }
}

/// An instant: seconds since the Unix epoch and the nanoseconds into that
/// second.
#[derive(Clone, Copy, Debug)]
pub struct UtcInstant {
    secs: i64,
    nanos: u32,
}

impl View for UtcInstant {
    type V = int;

    /// The instant in nanoseconds since the Unix epoch.
    closed spec fn view(&self) -> int {
        self.secs as int * (NANOS_PER_SECOND as int) + self.nanos as int
    }
}

impl UtcInstant {
    #[verifier::type_invariant]
    spec fn inv(self) -> bool {
        self.nanos < NANOS_PER_SECOND
    }

    /// The instant `nanos` nanoseconds after the second `secs`. A count of a
    /// second or more is carried into the seconds; `None` where they then
    /// pass the largest `i64`.
    pub fn new(secs: i64, nanos: u32) -> (out: Option<Self>)
        ensures
            out is Some <==> secs + nanos as int / (NANOS_PER_SECOND as int) <= i64::MAX,
            out matches Some(t) ==> t@ == secs as int * (NANOS_PER_SECOND as int) + nanos as int,
    {
        let carry: i64 = (nanos / NANOS_PER_SECOND) as i64;
        let rest: u32 = nanos % NANOS_PER_SECOND;
        if secs > i64::MAX - carry {
            None
        } else {
            let out = UtcInstant { secs: secs + carry, nanos: rest };
            proof {
                assert((secs + carry) * (NANOS_PER_SECOND as int) + rest == secs * (
                NANOS_PER_SECOND as int) + nanos) by (nonlinear_arith)
                    requires
                        carry == nanos as int / (NANOS_PER_SECOND as int),
                        rest == nanos as int % (NANOS_PER_SECOND as int),
                        NANOS_PER_SECOND == 1_000_000_000,
                ;
            }
            Some(out)
        }
    }

    /// The instant at the start of the second `secs`.
    pub fn from_seconds(secs: i64) -> (out: Self)
        ensures
            out@ == secs as int * (NANOS_PER_SECOND as int),
    {
        UtcInstant { secs, nanos: 0 }
    }

    /// The second in which the instant lies.
    pub fn seconds(&self) -> (out: i64)
        ensures
            out == self@ / (NANOS_PER_SECOND as int),
    {
        proof {
            use_type_invariant(self);
            assert((self.secs * (NANOS_PER_SECOND as int) + self.nanos) / (NANOS_PER_SECOND as int)
                == self.secs) by (nonlinear_arith)
                requires
                    0 <= self.nanos < NANOS_PER_SECOND,
                    NANOS_PER_SECOND == 1_000_000_000,
            ;
        }
        self.secs
    }

    /// The nanoseconds from the start of that second to the instant.
    pub fn subsec_nanos(&self) -> (out: u32)
        ensures
            out == self@ % (NANOS_PER_SECOND as int),
            out < NANOS_PER_SECOND,
    {
        proof {
            use_type_invariant(self);
            assert((self.secs * (NANOS_PER_SECOND as int) + self.nanos) % (NANOS_PER_SECOND as int)
                == self.nanos) by (nonlinear_arith)
                requires
                    0 <= self.nanos < NANOS_PER_SECOND,
                    NANOS_PER_SECOND == 1_000_000_000,
            ;
        }
        self.nanos
    }

    /// The instant in nanoseconds since the Unix epoch.
    pub fn total_nanos(&self) -> (out: i128)
        ensures
            out == self@,
            -0x8000_0000_0000_0000 * 1_000_000_000 <= out < 0x8000_0000_0000_0000 * 1_000_000_000,
    {
        proof {
            use_type_invariant(self);
        }
        (self.secs as i128) * 1_000_000_000 + (self.nanos as i128)
    }

    /// The instant `nanos` nanoseconds later (earlier, where `nanos` is
    /// negative); `None` where its second does not fit an `i64`.
    pub fn plus_nanos(&self, nanos: i64) -> (out: Option<Self>)
        ensures
            out is Some <==> i64::MIN <= (self@ + nanos) / (NANOS_PER_SECOND as int)
                <= i64::MAX,
            out matches Some(t) ==> t@ == self@ + nanos,
    {
        let total: i128 = self.total_nanos() + nanos as i128;
        let per: i128 = 1_000_000_000;
        // floor division, from the division of magnitudes
        let (q, r): (i128, i128) = if total >= 0 {
            (total / per, total % per)
        } else {
            let m: i128 = -total;
            let mq: i128 = m / per;
            let mr: i128 = m % per;
            if mr == 0 {
                (-mq, 0)
            } else {
                (-mq - 1, per - mr)
            }
        };
        proof {
            assert(q == total as int / 1_000_000_000 && r == total as int % 1_000_000_000)
                by (nonlinear_arith)
                requires
                    0 <= r < 1_000_000_000,
                    q * 1_000_000_000 + r == total,
            ;
        }
        if q < i64::MIN as i128 || q > i64::MAX as i128 {
            None
        } else {
            Some(UtcInstant { secs: q as i64, nanos: r as u32 })
        }
    }
}

/// The whole seconds from `from` to `to`, rounded toward zero; negative where
/// `to` is the earlier.
pub fn elapsed_seconds(from: &UtcInstant, to: &UtcInstant) -> (out: i128)
    ensures
        out == whole_seconds(to@ - from@),
{
    let diff: i128 = to.total_nanos() - from.total_nanos();
    if diff >= 0 {
        diff / 1_000_000_000
    } else {
        -((-diff) / 1_000_000_000)
    }
}

/// The clock of the simulation. It starts with the first tick, at the wall
/// time of that tick, and from then on runs with the time that the
/// simulation has been running.
pub struct SimulationClock {
    start: Option<UtcInstant>,
}

impl SimulationClock {
    /// The instant at which the clock was started, if it was.
    pub closed spec fn started_at(&self) -> Option<int> {
        match self.start {
            Some(t) => Some(t@),
            None => None,
        }
    }

    /// A clock that has not started.
    pub fn new() -> (out: Self)
        ensures
            out.started_at() is None,
    {
        SimulationClock { start: None }
    }

    /// A clock that started at `start`.
    pub fn starting_at(start: UtcInstant) -> (out: Self)
        ensures
            out.started_at() == Some(start@),
    {
        SimulationClock { start: Some(start) }
    }

    /// The simulated time of a tick. `wall_now` is the wall time of the tick
    /// and `elapsed_nanos` the time that the simulation has been running.
    /// The first tick starts the clock at `wall_now`; a later tick leaves
    /// the start as it is. The simulated time is the start plus the elapsed
    /// time; `None` where that is out of range.
    pub fn current_time(&mut self, wall_now: UtcInstant, elapsed_nanos: i64) -> (out: Option<
        UtcInstant,
    >)
        ensures
            final(self).started_at() == Some(
                match old(self).started_at() {
                    Some(s) => s,
                    None => wall_now@,
                },
            ),
            out matches Some(t) ==> Some(t@ - elapsed_nanos) == final(self).started_at(),
            out is None <==> !(i64::MIN <= (final(self).started_at()->0 + elapsed_nanos) / (
            NANOS_PER_SECOND as int) <= i64::MAX),
    {
        let start = match self.start {
            Some(s) => s,
            None => wall_now,
        };
        self.start = Some(start);
        start.plus_nanos(elapsed_nanos)
    }
}

} // verus!
