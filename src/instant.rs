use vstd::prelude::*;

verus! {

/// Largest magnitude of the seconds part of an instant that arithmetic here accepts.
/// Adding the longest interval step to it still fits in an `i64`.
pub const INSTANT_SECS_LIMIT: i64 = 9_000_000_000_000_000_000;

/// A point in time: whole seconds since 1970-01-01T00:00:00Z and the nanoseconds past them.
/// `nanos` may reach past one second only to stand for a leap second.
#[derive(Debug, Clone, Copy, PartialEq, Eq, Structural)]
pub struct Instant {
    pub secs: i64,
    pub nanos: u32,
}

/// A non-negative span of time.
#[derive(Debug, Clone, Copy, PartialEq, Eq, Structural)]
pub struct Delay {
    pub secs: u64,
    pub nanos: u32,
}

pub const NANOS_PER_SEC: u32 = 1_000_000_000;

impl Instant {
    /// The instant's position on the time line, in nanoseconds.
    pub open spec fn total_nanos(self) -> int {
        self.secs as int * NANOS_PER_SEC as int + self.nanos as int
    }

    /// Strict order of instants: by seconds, then by nanoseconds.
    pub open spec fn before(self, other: Instant) -> bool {
        self.secs < other.secs || (self.secs == other.secs && self.nanos < other.nanos)
    }

    /// Arithmetic on the instant's seconds cannot overflow.
    pub open spec fn in_range(self) -> bool {
        -INSTANT_SECS_LIMIT <= self.secs <= INSTANT_SECS_LIMIT
    }

    /// What a clock reading looks like: in range, and no leap second.
    pub open spec fn is_reading(self) -> bool {
        self.in_range() && self.nanos < NANOS_PER_SEC
    }

    pub fn check_reading(&self) -> (r: bool)
        ensures
            r == self.is_reading(),
    {
        -INSTANT_SECS_LIMIT <= self.secs && self.secs <= INSTANT_SECS_LIMIT && self.nanos < NANOS_PER_SEC
    }

    /// The instant `delta` seconds later.
    pub open spec fn plus_secs(self, delta: int) -> Instant {
        Instant { secs: (self.secs + delta) as i64, nanos: self.nanos }
    }

    pub fn is_before(&self, other: &Instant) -> (r: bool)
        ensures
            r == self.before(*other),
    {
        self.secs < other.secs || (self.secs == other.secs && self.nanos < other.nanos)
    }

    /// The instant `delta` whole seconds after this one.
    pub fn add_secs(&self, delta: u64) -> (r: Instant)
        requires
            self.in_range(),
            delta <= 100_000_000_000_000_000,
        ensures
            r == self.plus_secs(delta as int),
            r.secs == self.secs + delta,
    {
        Instant { secs: self.secs + delta as i64, nanos: self.nanos }
    }

    /// The span from `earlier` to this instant, which must not precede it.
    pub fn delay_since(&self, earlier: &Instant) -> (r: Delay)
        requires
            !self.before(*earlier),
            earlier.nanos < NANOS_PER_SEC,
        ensures
            r.total_nanos() == self.total_nanos() - earlier.total_nanos(),
    {
        let whole = (self.secs as i128 - earlier.secs as i128) as u64;
        if self.nanos >= earlier.nanos {
            let r = Delay { secs: whole, nanos: self.nanos - earlier.nanos };
            assert(r.total_nanos() == self.total_nanos() - earlier.total_nanos()) by (nonlinear_arith)
                requires
                    r.secs == self.secs - earlier.secs,
                    r.nanos == self.nanos - earlier.nanos;
            r
        } else {
            let r = Delay { secs: whole - 1, nanos: (self.nanos as u64 + NANOS_PER_SEC as u64 - earlier.nanos as u64) as u32 };
            assert(r.total_nanos() == self.total_nanos() - earlier.total_nanos()) by (nonlinear_arith)
                requires
                    r.secs == self.secs - earlier.secs - 1,
                    r.nanos == self.nanos + NANOS_PER_SEC - earlier.nanos;
            r
        }
    }
}

impl Delay {
    pub open spec fn total_nanos(self) -> int {
        self.secs as int * NANOS_PER_SEC as int + self.nanos as int
    }
}

/// What RFC 3339 parsing makes of a text: the seconds and nanoseconds of the instant it
/// names, if it is a valid date and time with an offset.
pub uninterp spec fn rfc3339_instant(text: Seq<char>) -> Option<(i64, u32)>;

/// The RFC 3339 text of the instant at the given seconds and nanoseconds, written in UTC,
/// where that instant lies in the representable calendar range.
pub uninterp spec fn rfc3339_text(secs: i64, nanos: u32) -> Option<Seq<char>>;

/// The `YYYYMMDD_HHMMSS` stamp, in UTC, of the instant at the given seconds.
pub uninterp spec fn compact_utc_stamp(secs: i64, nanos: u32) -> Option<Seq<char>>;

/// Relies on chrono's `DateTime::parse_from_rfc3339`: the parsed instant, any offset
/// folded in, read back through `timestamp` and `timestamp_subsec_nanos`.
#[verifier::external_body]
pub(crate) fn parse_rfc3339(text: &str) -> (r: Option<Instant>)
    ensures
        r matches Some(t) ==> rfc3339_instant(text@) == Some((t.secs, t.nanos)),
        r is None ==> rfc3339_instant(text@) is None,
{
    chrono::DateTime::parse_from_rfc3339(text).ok().map(
        |dt| Instant { secs: dt.timestamp(), nanos: dt.timestamp_subsec_nanos() },
    )
}

/// Relies on chrono's `DateTime::<Utc>::from_timestamp`, which refuses an instant out of
/// its range, and `DateTime::to_rfc3339`, which writes the instant it holds.
#[verifier::external_body]
pub(crate) fn format_rfc3339(t: Instant) -> (r: Option<String>)
    ensures
        r matches Some(s) ==> rfc3339_text(t.secs, t.nanos) == Some(s@),
        r is None ==> rfc3339_text(t.secs, t.nanos) is None,
{
    chrono::DateTime::<chrono::Utc>::from_timestamp(t.secs, t.nanos).map(|dt| dt.to_rfc3339())
}

/// Relies on chrono's `DateTime::<Utc>::from_timestamp` and its `format` with the
/// pattern `%Y%m%d_%H%M%S`.
#[verifier::external_body]
pub(crate) fn format_compact_stamp(t: Instant) -> (r: Option<String>)
    ensures
        r matches Some(s) ==> compact_utc_stamp(t.secs, t.nanos) == Some(s@),
        r is None ==> compact_utc_stamp(t.secs, t.nanos) is None,
{
    chrono::DateTime::<chrono::Utc>::from_timestamp(t.secs, t.nanos).map(
        |dt| dt.format("%Y%m%d_%H%M%S").to_string(),
    )
}

} // verus!
