use vstd::prelude::*;

use crate::value_objects::unix_clock;

verus! {

/// Nanoseconds in a second.
pub const NANOS_PER_SEC: u32 = 1_000_000_000;

/// Seconds in a day.
pub const SECS_PER_DAY: u64 = 86_400;

/// The earliest instant a [`UtcTime`] may hold, in seconds from the epoch: the start of
/// year -262143, the first instant that `chrono`'s `DateTime<Utc>` represents.
pub const MIN_EPOCH_SECS: i64 = -8_334_601_315_200;

/// The latest second a [`UtcTime`] may hold, in seconds from the epoch: the last second of
/// year 262142, the last that `chrono`'s `DateTime<Utc>` represents.
pub const MAX_EPOCH_SECS: i64 = 8_210_266_876_799;

/// A UTC instant: whole seconds since the Unix epoch and the nanoseconds within the second.
#[derive(Debug, Clone, Copy, PartialEq, Eq, Hash)]
pub struct UtcTime {
    secs: i64,
    nanos: u32,
}

/// The instant `secs` seconds and `nanos` nanoseconds after the epoch lies in range.
pub open spec fn valid_instant(secs: int, nanos: int) -> bool {
    MIN_EPOCH_SECS <= secs <= MAX_EPOCH_SECS && 0 <= nanos < NANOS_PER_SEC
}

impl View for UtcTime {
    type V = int;

    /// Nanoseconds since the Unix epoch.
    closed spec fn view(&self) -> int {
        self.secs * NANOS_PER_SEC + self.nanos
    }
}

impl UtcTime {
    /// The seconds part.
    pub closed spec fn spec_secs(self) -> int {
        self.secs as int
    }

    /// The nanoseconds part.
    pub closed spec fn spec_nanos(self) -> int {
        self.nanos as int
    }

    /// The instant with these parts.
    pub closed spec fn spec_new(secs: i64, nanos: u32) -> UtcTime {
        UtcTime { secs, nanos }
    }

    /// The parts of an instant made from parts.
    pub proof fn lemma_spec_new(secs: i64, nanos: u32)
        ensures
            UtcTime::spec_new(secs, nanos).spec_secs() == secs,
            UtcTime::spec_new(secs, nanos).spec_nanos() == nanos,
            UtcTime::spec_new(secs, nanos).wf() == valid_instant(secs as int, nanos as int),
    {
    }

    /// The parts lie in range.
    pub closed spec fn wf(self) -> bool {
        valid_instant(self.secs as int, self.nanos as int)
    }

    /// Nanoseconds since the epoch, for any parts.
    pub fn total_nanos(&self) -> (r: i128)
        ensures
            r == self@,
    {
        proof {
            let s = self.secs as int;
            assert(-9_223_372_036_854_775_808_000_000_000 <= s * 1_000_000_000 <= 9_223_372_036_854_775_807_000_000_000)
                by (nonlinear_arith)
                requires
                    -9_223_372_036_854_775_808 <= s <= 9_223_372_036_854_775_807,
            ;
        }
        (self.secs as i128) * 1_000_000_000i128 + (self.nanos as i128)
    }

    /// An instant in range lies within about 285,000 years of the epoch.
    pub proof fn lemma_range(self)
        requires
            self.wf(),
        ensures
            -9_000_000_000_000_000_000_000 <= self@ <= 9_000_000_000_000_000_000_000,
    {
        let s = self.secs as int;
        assert(-9_000_000_000_000_000_000_000 <= s * 1_000_000_000 <= 9_000_000_000_000_000_000_000)
            by (nonlinear_arith)
            requires
                -9_000_000_000_000 <= s <= 9_000_000_000_000,
        ;
    }

    /// Nanoseconds since the epoch, from the parts.
    pub proof fn lemma_view(self)
        ensures
            self@ == self.spec_secs() * NANOS_PER_SEC + self.spec_nanos(),
    {
    }

    /// The instant at `secs` seconds and `nanos` nanoseconds after the epoch, when in range.
    pub fn from_unix(secs: i64, nanos: u32) -> (r: Option<UtcTime>)
        ensures
            match r {
                Some(t) => valid_instant(secs as int, nanos as int) && t.wf() && t.spec_secs()
                    == secs && t.spec_nanos() == nanos && t@ == secs * NANOS_PER_SEC + nanos
                    && t == UtcTime::spec_new(secs, nanos),
                None => !valid_instant(secs as int, nanos as int),
            },
    {
        if MIN_EPOCH_SECS <= secs && secs <= MAX_EPOCH_SECS && nanos < NANOS_PER_SEC {
            Some(UtcTime { secs, nanos })
        } else {
            None
        }
    }

    /// The Unix epoch.
    pub fn epoch() -> (r: UtcTime)
        ensures
            r.wf(),
            r@ == 0,
            r.spec_secs() == 0,
            r.spec_nanos() == 0,
    {
        UtcTime { secs: 0, nanos: 0 }
    }

    /// The whole seconds since the epoch.
    pub fn secs(&self) -> (r: i64)
        ensures
            r == self.spec_secs(),
    {
        self.secs
    }

    /// The nanoseconds within the second.
    pub fn nanos(&self) -> (r: u32)
        ensures
            r == self.spec_nanos(),
    {
        self.nanos
    }

    /// Nanoseconds since the epoch.
    pub fn as_nanos(&self) -> (r: i128)
        requires
            self.wf(),
        ensures
            r == self@,
    {
        proof {
            let s = self.secs as int;
            assert(-9_000_000_000_000_000_000_000 <= s * 1_000_000_000 <= 9_000_000_000_000_000_000_000)
                by (nonlinear_arith)
                requires
                    -9_000_000_000_000 <= s <= 9_000_000_000_000,
            ;
        }
        (self.secs as i128) * (NANOS_PER_SEC as i128) + (self.nanos as i128)
    }

    /// The instant `secs` seconds later, when that stays in range.
    pub fn plus_secs(&self, secs: u64) -> (r: Option<UtcTime>)
        requires
            self.wf(),
        ensures
            match r {
                Some(t) => t.wf() && t@ == self@ + secs * NANOS_PER_SEC,
                None => !valid_instant(self.spec_secs() + secs, self.spec_nanos()),
            },
    {
        let wide: i128 = (self.secs as i128) + (secs as i128);
        if wide > (MAX_EPOCH_SECS as i128) {
            None
        } else {
            let s = wide as i64;
            proof {
                assert((self.secs + secs) * NANOS_PER_SEC + self.nanos == self.secs * NANOS_PER_SEC
                    + self.nanos + secs * NANOS_PER_SEC) by (nonlinear_arith);
            }
            Some(UtcTime { secs: s, nanos: self.nanos })
        }
    }
}

/// Whole seconds from `from` to `to`, and zero when `to` is not later (what
/// `SystemTime::duration_since(..).unwrap_or(0).as_secs()` gives).
pub open spec fn elapsed_secs(from: int, to: int) -> int {
    if to <= from {
        0
    } else {
        (to - from) / (NANOS_PER_SEC as int)
    }
}

/// [`elapsed_secs`] between two instants.
pub fn elapsed_whole_secs(from: &UtcTime, to: &UtcTime) -> (r: u64)
    requires
        from.wf(),
        to.wf(),
    ensures
        r == elapsed_secs(from@, to@),
{
    let a = from.as_nanos();
    let b = to.as_nanos();
    if b <= a {
        0
    } else {
        let d = (b - a) / (NANOS_PER_SEC as i128);
        proof {
            assert(b - a <= (MAX_EPOCH_SECS - MIN_EPOCH_SECS + 1) * NANOS_PER_SEC);
            assert(d <= (MAX_EPOCH_SECS - MIN_EPOCH_SECS + 1)) by (nonlinear_arith)
                requires
                    d == (b - a) / (NANOS_PER_SEC as int),
                    b - a <= (MAX_EPOCH_SECS - MIN_EPOCH_SECS + 1) * NANOS_PER_SEC,
                    b - a > 0,
            ;
        }
        d as u64
    }
}

/// The current time from the system clock (the epoch when the clock reads beyond the range).
pub fn now() -> (r: UtcTime)
    ensures
        r.wf(),
{
    let (secs, nanos) = unix_clock();
    if secs <= (MAX_EPOCH_SECS as u64) {
        UtcTime { secs: secs as i64, nanos }
    } else {
        UtcTime::epoch()
    }
}

/// What `chrono` writes for the instant with `Display` (such as `2024-01-01 00:00:00 UTC`).
pub uninterp spec fn utc_display_text(secs: i64, nanos: u32) -> Seq<char>;

/// What `chrono`'s `DateTime::to_rfc3339` writes for the instant (such as
/// `2024-01-01T00:00:00+00:00`).
pub uninterp spec fn utc_rfc3339_text(secs: i64, nanos: u32) -> Seq<char>;

/// `DateTime::<Utc>::from_timestamp(secs, nanos)` formatted with `Display`. The instant is in
/// range, which `from_timestamp` accepts.
#[verifier::external_body]
pub(crate) fn utc_display(t: &UtcTime) -> (r: String)
    requires
        t.wf(),
    ensures
        r@ == utc_display_text(t.spec_secs() as i64, t.spec_nanos() as u32),
{
    match chrono::DateTime::<chrono::Utc>::from_timestamp(t.secs, t.nanos) {
        Some(d) => d.to_string(),
        None => String::new(),
    }
}

/// `DateTime::<Utc>::from_timestamp(secs, nanos)` formatted with `to_rfc3339`. The instant is
/// in range, which `from_timestamp` accepts.
#[verifier::external_body]
pub(crate) fn utc_rfc3339(t: &UtcTime) -> (r: String)
    requires
        t.wf(),
    ensures
        r@ == utc_rfc3339_text(t.spec_secs() as i64, t.spec_nanos() as u32),
{
    match chrono::DateTime::<chrono::Utc>::from_timestamp(t.secs, t.nanos) {
        Some(d) => d.to_rfc3339(),
        None => String::new(),
    }
}

/// What `chrono` writes for the instant with `Debug` (such as `2024-01-01T00:00:00Z`).
pub uninterp spec fn utc_debug_text(secs: i64, nanos: u32) -> Seq<char>;

/// `DateTime::<Utc>::from_timestamp(secs, nanos)` formatted with `Debug`. The instant is in
/// range, which `from_timestamp` accepts.
#[verifier::external_body]
pub(crate) fn utc_debug(t: &UtcTime) -> (r: String)
    requires
        t.wf(),
    ensures
        r@ == utc_debug_text(t.spec_secs() as i64, t.spec_nanos() as u32),
{
    match chrono::DateTime::<chrono::Utc>::from_timestamp(t.secs, t.nanos) {
        Some(d) => format!("{:?}", d),
        None => String::new(),
    }
}

} // verus!
