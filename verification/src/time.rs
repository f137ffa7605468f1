//! Points in time and spans of time.

use vstd::prelude::*;

verus! {

/// Nanoseconds in a second.
pub const NANOS_PER_SEC: u32 = 1_000_000_000;

/// A point in time (UTC); its view is the number of nanoseconds since the Unix
/// epoch, negative before it.
#[derive(Debug, Clone, Copy, PartialEq, Eq, PartialOrd, Ord, Hash, Structural)]
pub struct Timestamp {
    secs: i64,
    nanos: u32,
}

/// A span of time; its view is its length in nanoseconds.
#[derive(Debug, Clone, Copy, PartialEq, Eq, PartialOrd, Ord, Hash, Structural)]
pub struct Duration {
    secs: u64,
    nanos: u32,
}

impl View for Timestamp {
    type V = int;

    closed spec fn view(&self) -> int {
        self.secs * 1_000_000_000 + self.nanos
    }
}

impl View for Duration {
    type V = int;

    closed spec fn view(&self) -> int {
        self.secs * 1_000_000_000 + self.nanos
    }
}

/// Whole seconds in a difference of `nanos` nanoseconds, rounded toward zero.
pub open spec fn whole_secs(nanos: int) -> int {
    if nanos >= 0 {
        nanos / 1_000_000_000
    } else {
        -((-nanos) / 1_000_000_000)
    }
}

impl Timestamp {
    /// The fraction of a second is less than a second.
    #[verifier::type_invariant]
    spec fn inv(self) -> bool {
        self.nanos < 1_000_000_000
    }

    /// The point `secs` seconds and `nanos` nanoseconds after the Unix epoch,
    /// `None` where `nanos` is a second or more.
    pub fn new(secs: i64, nanos: u32) -> (r: Option<Timestamp>)
        ensures
            r is Some <==> nanos < 1_000_000_000,
            r matches Some(t) ==> t@ == secs * 1_000_000_000 + nanos,
    {
        if nanos < NANOS_PER_SEC {
            Some(Timestamp { secs, nanos })
        } else {
            None
        }
    }

    /// The point `secs` seconds after the Unix epoch.
    pub fn from_secs(secs: i64) -> (r: Timestamp)
        ensures
            r@ == secs * 1_000_000_000,
    {
        Timestamp { secs, nanos: 0 }
    }

    /// Whole seconds since the Unix epoch, rounded down.
    pub fn secs(&self) -> (r: i64)
        ensures
            r == self@ / 1_000_000_000,
    {
        proof {
            use_type_invariant(self);
        }
        self.secs
    }

    /// Nanoseconds within the second.
    pub fn subsec_nanos(&self) -> (r: u32)
        ensures
            r == self@ % 1_000_000_000,
    {
        proof {
            use_type_invariant(self);
        }
        self.nanos
    }

    /// The point `secs` seconds later (earlier where negative), `None` where it
    /// cannot be represented.
    pub fn plus_secs(&self, secs: i64) -> (r: Option<Timestamp>)
        ensures
            r is Some <==> i64::MIN <= self@ / 1_000_000_000 + secs <= i64::MAX,
            r matches Some(t) ==> t@ == self@ + secs * 1_000_000_000,
    {
        proof {
            use_type_invariant(self);
        }
        match self.secs.checked_add(secs) {
            Some(s) => Some(Timestamp { secs: s, nanos: self.nanos }),
            None => None,
        }
    }

    /// Nanoseconds from `earlier` to this point, negative where it lies after it.
    pub fn nanos_since(&self, earlier: &Timestamp) -> (r: i128)
        ensures
            r == self@ - earlier@,
    {
        proof {
            use_type_invariant(self);
            use_type_invariant(earlier);
        }
        (self.secs as i128 - earlier.secs as i128) * 1_000_000_000 + (self.nanos as i128
            - earlier.nanos as i128)
    }

    /// Whole seconds from `earlier` to this point, rounded toward zero.
    pub fn secs_since(&self, earlier: &Timestamp) -> (r: i128)
        ensures
            r == whole_secs(self@ - earlier@),
    {
        let d: i128 = self.nanos_since(earlier);
        proof {
            use_type_invariant(self);
            use_type_invariant(earlier);
        }
        if d >= 0 {
            d / 1_000_000_000
        } else {
            -((-d) / 1_000_000_000)
        }
    }

    /// Whether this point lies before `other`.
    pub fn before(&self, other: &Timestamp) -> (r: bool)
        ensures
            r == (self@ < other@),
    {
        self.nanos_since(other) < 0
    }
}

impl Duration {
    /// The fraction of a second is less than a second.
    #[verifier::type_invariant]
    spec fn inv(self) -> bool {
        self.nanos < 1_000_000_000
    }

    /// A span of `secs` seconds and `nanos` nanoseconds, `None` where `nanos`
    /// is a second or more.
    pub fn new(secs: u64, nanos: u32) -> (r: Option<Duration>)
        ensures
            r is Some <==> nanos < 1_000_000_000,
            r matches Some(d) ==> d@ == secs * 1_000_000_000 + nanos,
    {
        if nanos < NANOS_PER_SEC {
            Some(Duration { secs, nanos })
        } else {
            None
        }
    }

    /// A span of whole seconds.
    pub fn from_secs(secs: u64) -> (r: Duration)
        ensures
            r@ == secs * 1_000_000_000,
    {
        Duration { secs, nanos: 0 }
    }

    /// A span of whole milliseconds.
    pub fn from_millis(millis: u64) -> (r: Duration)
        ensures
            r@ == millis * 1_000_000,
    {
        let rest: u64 = millis % 1000;
        Duration { secs: millis / 1000, nanos: rest as u32 * 1_000_000 }
    }

    /// Whole seconds in the span, rounded down.
    pub fn as_secs(&self) -> (r: u64)
        ensures
            r == self@ / 1_000_000_000,
            r == whole_secs(self@),
            self@ >= 0,
    {
        proof {
            use_type_invariant(self);
        }
        self.secs
    }

    /// Nanoseconds within the second.
    pub fn subsec_nanos(&self) -> (r: u32)
        ensures
            r == self@ % 1_000_000_000,
    {
        proof {
            use_type_invariant(self);
        }
        self.nanos
    }

    /// Length of the span in nanoseconds.
    pub fn as_nanos(&self) -> (r: i128)
        ensures
            r == self@,
            0 <= r < 18_446_744_073_709_551_616 * 1_000_000_000,
    {
        proof {
            use_type_invariant(self);
        }
        self.secs as i128 * 1_000_000_000 + self.nanos as i128
    }
}

/// A time of day (UTC), to the minute.
#[derive(Debug, Clone, Copy, PartialEq, Eq, PartialOrd, Ord, Hash, Structural)]
pub struct UtcTime {
    pub hour: u8,
    pub minute: u8,
}

impl UtcTime {
    /// The given hour and minute, `None` where there is no such time of day.
    pub fn from_hm(hour: u32, minute: u32) -> (r: Option<UtcTime>)
        ensures
            r == (if hour < 24 && minute < 60 {
                Some(UtcTime { hour: hour as u8, minute: minute as u8 })
            } else {
                None
            }),
    {
        if hour < 24 && minute < 60 {
            Some(UtcTime { hour: hour as u8, minute: minute as u8 })
        } else {
            None
        }
    }
}

} // verus!
