//! Time values and the cells that hold them.
//!
//! A [`Duration`] is a span of whole seconds and nanoseconds, an [`Instant`] a
//! reading of a monotonic clock. The two cells keep microseconds in one `u64`:
//! that is the layout both builds of a library agree on.

use vstd::prelude::*;

verus! {

/// Nanoseconds in a second.
pub const NANOS_PER_SEC: u32 = 1_000_000_000;

/// Nanoseconds in a microsecond.
pub const NANOS_PER_MICRO: u32 = 1_000;

/// Nanoseconds in a millisecond.
pub const NANOS_PER_MILLI: u32 = 1_000_000;

/// Microseconds in a second.
pub const MICROS_PER_SEC: u64 = 1_000_000;

/// Milliseconds in a second.
pub const MILLIS_PER_SEC: u64 = 1_000;

/// A span of time: whole seconds and a part of a second in nanoseconds.
#[derive(Clone, Copy, Debug)]
pub struct Duration {
    secs: u64,
    nanos: u32,
}

impl View for Duration {
    type V = nat;

    /// The span in nanoseconds.
    closed spec fn view(&self) -> nat {
        (self.secs * NANOS_PER_SEC + self.nanos) as nat
    }
}

impl Duration {
    #[verifier::type_invariant]
    spec fn normalised(self) -> bool {
        self.nanos < NANOS_PER_SEC
    }

    /// The span in whole microseconds.
    pub open spec fn micros(self) -> nat {
        self@ / (NANOS_PER_MICRO as nat)
    }

    /// The span in whole milliseconds.
    pub open spec fn millis(self) -> nat {
        self@ / (NANOS_PER_MILLI as nat)
    }

    /// The span of `secs` seconds and `nanos` nanoseconds.
    pub fn new(secs: u64, nanos: u32) -> (d: Duration)
        requires
            nanos < NANOS_PER_SEC,
        ensures
            d@ == secs * NANOS_PER_SEC + nanos,
    {
        Duration { secs, nanos }
    }

    /// The empty span.
    pub fn zero() -> (d: Duration)
        ensures
            d@ == 0,
    {
        Duration { secs: 0, nanos: 0 }
    }

    /// The span of `millis` milliseconds.
    pub fn from_millis(millis: u64) -> (d: Duration)
        ensures
            d@ == millis * NANOS_PER_MILLI,
    {
        let secs: u64 = millis / MILLIS_PER_SEC;
        let rest: u64 = millis % MILLIS_PER_SEC;
        let nanos: u32 = (rest as u32) * NANOS_PER_MILLI;
        Duration { secs, nanos }
    }

    /// The span of `micros` microseconds.
    pub fn from_micros(micros: u64) -> (d: Duration)
        ensures
            d@ == micros * NANOS_PER_MICRO,
            d.micros() == micros,
    {
        let secs: u64 = micros / MICROS_PER_SEC;
        let rest: u64 = micros % MICROS_PER_SEC;
        let nanos: u32 = (rest as u32) * NANOS_PER_MICRO;
        Duration { secs, nanos }
    }

    /// The whole seconds of the span.
    pub fn as_secs(&self) -> (secs: u64)
        ensures
            secs == self@ / (NANOS_PER_SEC as nat),
    {
        proof {
            use_type_invariant(self);
        }
        self.secs
    }

    /// The part of the span below one second, in nanoseconds.
    pub fn subsec_nanos(&self) -> (nanos: u32)
        ensures
            nanos == self@ % (NANOS_PER_SEC as nat),
    {
        proof {
            use_type_invariant(self);
        }
        self.nanos
    }

    /// The span in whole microseconds; what is below a microsecond is cut off.
    pub fn as_micros(&self) -> (micros: u128)
        ensures
            micros == self.micros(),
    {
        let whole: u128 = (self.secs as u128) * 1_000_000u128;
        let part: u32 = self.nanos / NANOS_PER_MICRO;
        whole + (part as u128)
    }

    /// The span in whole milliseconds; what is below a millisecond is cut off.
    pub fn as_millis(&self) -> (millis: u128)
        ensures
            millis == self.millis(),
    {
        let whole: u128 = (self.secs as u128) * 1_000u128;
        let part: u32 = self.nanos / NANOS_PER_MILLI;
        whole + (part as u128)
    }

    /// Whether this span is shorter than `other`.
    pub fn lt(&self, other: &Duration) -> (shorter: bool)
        ensures
            shorter == (self@ < other@),
    {
        proof {
            use_type_invariant(self);
            use_type_invariant(other);
        }
        self.secs < other.secs || (self.secs == other.secs && self.nanos < other.nanos)
    }

    /// The longest span a [`Duration`] can hold, in nanoseconds.
    pub open spec fn max_nanos() -> nat {
        (u64::MAX * NANOS_PER_SEC + (NANOS_PER_SEC - 1)) as nat
    }

    /// The sum of the two spans, or `None` where it is longer than any
    /// [`Duration`].
    pub fn checked_add(&self, other: &Duration) -> (sum: Option<Duration>)
        ensures
            match sum {
                Some(d) => d@ == self@ + other@,
                None => self@ + other@ > Duration::max_nanos(),
            },
    {
        proof {
            use_type_invariant(self);
            use_type_invariant(other);
        }
        let mut nanos: u32 = self.nanos + other.nanos;
        let mut carry: u64 = 0;
        if nanos >= NANOS_PER_SEC {
            nanos = nanos - NANOS_PER_SEC;
            carry = 1;
        }
        match self.secs.checked_add(other.secs) {
            None => None,
            Some(secs) => match secs.checked_add(carry) {
                None => None,
                Some(secs) => Some(Duration { secs, nanos }),
            },
        }
    }

    /// This span less `other`, or the empty span where `other` is the longer.
    pub fn saturating_sub(&self, other: &Duration) -> (rest: Duration)
        ensures
            rest@ == if self@ >= other@ {
                self@ - other@
            } else {
                0
            },
    {
        proof {
            use_type_invariant(self);
            use_type_invariant(other);
        }
        if self.lt(other) {
            Duration { secs: 0, nanos: 0 }
        } else if self.nanos >= other.nanos {
            Duration { secs: self.secs - other.secs, nanos: self.nanos - other.nanos }
        } else {
            Duration {
                secs: self.secs - other.secs - 1,
                nanos: self.nanos + NANOS_PER_SEC - other.nanos,
            }
        }
    }
}

/// A reading of a monotonic clock: the time that has passed since the clock's
/// origin.
#[derive(Clone, Copy, Debug)]
pub struct Instant {
    since_origin: Duration,
}

impl View for Instant {
    type V = nat;

    /// Nanoseconds since the clock's origin.
    closed spec fn view(&self) -> nat {
        self.since_origin@
    }
}

impl Instant {
    /// The reading taken `since_origin` after the clock's origin.
    pub fn from_origin(since_origin: Duration) -> (t: Instant)
        ensures
            t@ == since_origin@,
    {
        Instant { since_origin }
    }

    /// The time between the clock's origin and this reading.
    pub fn since_origin(&self) -> (d: Duration)
        ensures
            d@ == self@,
    {
        self.since_origin
    }

    /// The time from `earlier` to this reading, or the empty span where
    /// `earlier` is in fact the later of the two.
    pub fn duration_since(&self, earlier: &Instant) -> (d: Duration)
        ensures
            d@ == if self@ >= earlier@ {
                self@ - earlier@
            } else {
                0
            },
    {
        self.since_origin.saturating_sub(&earlier.since_origin)
    }

    /// The reading `d` after this one, or `None` where no [`Instant`] can
    /// hold it.
    pub fn checked_add(&self, d: &Duration) -> (later: Option<Instant>)
        ensures
            match later {
                Some(t) => t@ == self@ + d@,
                None => self@ + d@ > Duration::max_nanos(),
            },
    {
        match self.since_origin.checked_add(d) {
            Some(since_origin) => Some(Instant { since_origin }),
            None => None,
        }
    }
}

/// A cell that holds a span of time as microseconds in a `u64`.
#[derive(Debug)]
pub struct AtomicDuration {
    micros: u64,
}

impl View for AtomicDuration {
    type V = nat;

    /// The microseconds held.
    closed spec fn view(&self) -> nat {
        self.micros as nat
    }
}

impl AtomicDuration {
    /// A cell that holds `dur`, cut down to whole microseconds. A span of more
    /// than `u64::MAX` microseconds does not fit the cell.
    pub fn new(dur: Duration) -> (cell: AtomicDuration)
        requires
            dur.micros() <= u64::MAX,
        ensures
            cell@ == dur.micros(),
    {
        let micros: u128 = dur.as_micros();
        AtomicDuration { micros: micros as u64 }
    }

    /// The span held.
    pub fn load(&self) -> (dur: Duration)
        ensures
            dur@ == self@ * NANOS_PER_MICRO,
            dur.micros() == self@,
    {
        Duration::from_micros(self.micros)
    }

    /// Puts `dur` into the cell, cut down to whole microseconds. A span of
    /// more than `u64::MAX` microseconds does not fit the cell.
    pub fn store(&mut self, dur: Duration)
        requires
            dur.micros() <= u64::MAX,
        ensures
            final(self)@ == dur.micros(),
    {
        let micros: u128 = dur.as_micros();
        self.micros = micros as u64;
    }
}

/// A cell that holds a clock reading as the microseconds that lie between it
/// and an anchor, the reading with which the cell was made.
#[derive(Debug)]
pub struct AtomicInstant {
    delta: AtomicDuration,
    anchor: Instant,
}

impl View for AtomicInstant {
    type V = nat;

    /// The reading held, in nanoseconds since the clock's origin.
    closed spec fn view(&self) -> nat {
        (self.anchor@ + self.delta@ * NANOS_PER_MICRO) as nat
    }
}

impl AtomicInstant {
    #[verifier::type_invariant]
    spec fn in_range(self) -> bool {
        self.anchor@ + self.delta@ * NANOS_PER_MICRO <= Duration::max_nanos()
    }

    /// The reading with which the cell was made.
    pub closed spec fn anchor(self) -> nat {
        self.anchor@
    }

    /// The reading that the cell holds once `ins` is stored in a cell
    /// anchored at `anchor`: `ins` cut down to whole microseconds after the
    /// anchor, and the anchor itself for an `ins` before it.
    pub open spec fn stored(anchor: nat, ins: nat) -> nat {
        if ins >= anchor {
            (anchor + (ins - anchor) / (NANOS_PER_MICRO as int) * NANOS_PER_MICRO) as nat
        } else {
            anchor
        }
    }

    /// A cell anchored at `now` that holds `now`.
    pub fn now(now: Instant) -> (cell: AtomicInstant)
        ensures
            cell@ == now@,
            cell.anchor() == now@,
    {
        let dur = now.duration_since(&now);
        proof {
            use_type_invariant(&now.since_origin);
        }
        AtomicInstant { delta: AtomicDuration::new(dur), anchor: now }
    }

    /// The reading held.
    pub fn load(&self) -> (ins: Instant)
        ensures
            ins@ == self@,
    {
        proof {
            use_type_invariant(self);
        }
        let delta = self.delta.load();
        match self.anchor.checked_add(&delta) {
            Some(ins) => ins,
            None => self.anchor,
        }
    }

    /// Puts `ins` into the cell. The cell keeps the microseconds from its
    /// anchor to `ins`; more than `u64::MAX` of them do not fit.
    pub fn store(&mut self, ins: Instant)
        requires
            ins@ - old(self).anchor() <= u64::MAX * NANOS_PER_MICRO,
        ensures
            final(self).anchor() == old(self).anchor(),
            final(self)@ == AtomicInstant::stored(old(self).anchor(), ins@),
    {
        proof {
            use_type_invariant(&ins.since_origin);
            use_type_invariant(&*self);
        }
        let dur = ins.duration_since(&self.anchor);
        self.delta = AtomicDuration::new(dur);
    }
}

/// A stored reading is never later than the reading that was put in, and less
/// than a microsecond earlier, as long as that reading is not earlier than the
/// anchor.
pub proof fn lemma_stored_instant_bounds(anchor: nat, ins: nat)
    requires
        ins >= anchor,
    ensures
        AtomicInstant::stored(anchor, ins) <= ins,
        ins < AtomicInstant::stored(anchor, ins) + NANOS_PER_MICRO,
{
}

} // verus!
