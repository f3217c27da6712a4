//! Conversion between epoch nanoseconds and collectd's fixed-point time.
//!
//! Collectd stores absolute time in a 64-bit value whose most significant
//! 34 bits hold whole seconds and whose least significant 30 bits hold the
//! sub-second part in 2^-30-second steps.  Comparing and subtracting such
//! values works like plain integer arithmetic.

use vstd::prelude::*;
use vstd::arithmetic::div_mod::lemma_fundamental_div_mod;
use vstd::arithmetic::div_mod::lemma_fundamental_div_mod_converse;
use vstd::arithmetic::div_mod::lemma_mod_division_less_than_divisor;
use vstd::arithmetic::div_mod::lemma_div_is_ordered;

verus! {

/// Nanoseconds per second.
pub const NANOS_PER_SEC: u64 = 1_000_000_000;

/// 2^30, the number of fractional steps per second in the fixed-point encoding.
pub const FRAC_UNIT: u64 = 0x4000_0000;

/// Largest nanosecond count whose whole-second part fits the 34 high bits,
/// plus one: nanosecond values below this bound are encodable.
pub const MAX_ENCODABLE_NANOS: u64 = 0x4_0000_0000 * 1_000_000_000;

/// The fixed-point value that encodes `nanos` epoch nanoseconds: whole
/// seconds in the high 34 bits, the fraction rounded half-up to 2^-30 steps
/// in the low 30 bits.
pub open spec fn encoded_of(nanos: int) -> int {
    (nanos / 1_000_000_000) * 0x4000_0000
        + ((nanos % 1_000_000_000) * 0x4000_0000 + 500_000_000) / 1_000_000_000
}

/// The epoch nanoseconds represented by the fixed-point value `cd`: the
/// 30-bit fraction is scaled to nanoseconds with half-up rounding.
pub open spec fn nanos_of(cd: int) -> int {
    (cd / 0x4000_0000) * 1_000_000_000
        + ((cd % 0x4000_0000) * 1_000_000_000 + 0x2000_0000) / 0x4000_0000
}

/// Convert epoch nanoseconds into collectd's 2^-30-second resolution.
pub fn nanos_to_collectd(nanos: u64) -> (r: u64)
    requires
        nanos < MAX_ENCODABLE_NANOS,
    ensures
        r == encoded_of(nanos as int),
{
    let secs: u64 = nanos / NANOS_PER_SEC;
    let rem: u64 = nanos % NANOS_PER_SEC;
    assert(secs < 0x4_0000_0000 && rem < 1_000_000_000) by (nonlinear_arith)
        requires
            nanos < 0x4_0000_0000 * 1_000_000_000,
            secs == nanos / 1_000_000_000,
            rem == nanos % 1_000_000_000,
    ;
    assert(rem * FRAC_UNIT <= 999_999_999 * 0x4000_0000) by (nonlinear_arith)
        requires
            rem <= 999_999_999,
    ;
    let frac: u64 = (rem * FRAC_UNIT + 500_000_000) / NANOS_PER_SEC;
    assert(frac <= 0x3fff_ffff) by (nonlinear_arith)
        requires
            frac == (rem * 0x4000_0000 + 500_000_000) / 1_000_000_000,
            rem <= 999_999_999,
    ;
    secs * FRAC_UNIT + frac
}

/// Convert collectd's 2^-30-second resolution into epoch nanoseconds.
pub fn collectd_to_nanos(cd: u64) -> (r: u64)
    ensures
        r == nanos_of(cd as int),
{
    let secs: u64 = cd / FRAC_UNIT;
    let sub: u64 = cd % FRAC_UNIT;
    assert(secs <= 0x3_ffff_ffff && sub <= 0x3fff_ffff) by (nonlinear_arith)
        requires
            secs == cd / 0x4000_0000,
            sub == cd % 0x4000_0000,
            cd <= 0xffff_ffff_ffff_ffff,
    ;
    assert(sub * NANOS_PER_SEC <= 0x3fff_ffff * 1_000_000_000) by (nonlinear_arith)
        requires
            sub <= 0x3fff_ffff,
    ;
    let frac: u64 = (sub * NANOS_PER_SEC + 0x2000_0000) / FRAC_UNIT;
    assert(frac <= 999_999_999) by (nonlinear_arith)
        requires
            frac == (sub * 1_000_000_000 + 0x2000_0000) / 0x4000_0000,
            sub <= 0x3fff_ffff,
    ;
    assert(secs * NANOS_PER_SEC <= 0x3_ffff_ffff * 1_000_000_000) by (nonlinear_arith)
        requires
            secs <= 0x3_ffff_ffff,
    ;
    secs * NANOS_PER_SEC + frac
}

/// A calendar timestamp in UTC.  It wraps chrono's `DateTime<Utc>`, which
/// verified code carries as an opaque value: everything the library reads
/// of it goes through the epoch-second accessors below.
#[verifier::external_body]
pub struct UtcTime {
    dt: chrono::DateTime<chrono::Utc>,
}

impl UtcTime {
    /// Relies on the `PartialEq` of chrono's `DateTime`: equality of the
    /// two wrapped calendar timestamps.
    #[verifier::external_body]
    pub fn same_instant(&self, other: &UtcTime) -> bool {
        self.dt == other.dt
    }
}

/// The whole non-leap seconds since the Unix epoch of a calendar time,
/// as chrono's `DateTime::timestamp` computes them.
pub uninterp spec fn epoch_secs_of(t: UtcTime) -> i64;

/// The nanoseconds since the last whole second of a calendar time, as
/// chrono's `DateTime::timestamp_subsec_nanos` computes them.
pub uninterp spec fn epoch_nanos_of(t: UtcTime) -> u32;

/// The total nanosecond count of a duration, as chrono's
/// `TimeDelta::num_nanoseconds` computes it: `None` exactly when the
/// count overflows 64 signed bits.
pub uninterp spec fn delta_nanos_of(d: chrono::TimeDelta) -> Option<i64>;

/// A chrono `TimeDelta` (signed duration) carried opaquely.
#[verifier::external_type_specification]
#[verifier::external_body]
pub struct ExTimeDelta(chrono::TimeDelta);

/// Relies on chrono's `DateTime::<Utc>::from_timestamp`: it returns `Some`
/// whenever the day number derived from `secs` lies in calendar range and
/// the nanosecond part is an ordinary (non-leap) one; every second count
/// up to twenty billion with a nanosecond part below one billion is
/// accepted.  Its documentation guarantees the round trip with
/// `timestamp` and `timestamp_subsec_nanos`: the produced calendar time
/// reads back exactly the given parts.
#[verifier::external_body]
fn utc_from_epoch(secs: i64, nsecs: u32) -> (r: Option<UtcTime>)
    ensures
        0 <= secs <= 20_000_000_000 && nsecs < 1_000_000_000 ==> r is Some,
        match r {
            Some(t) => epoch_secs_of(t) == secs && epoch_nanos_of(t) == nsecs,
            None => true,
        },
{
    match chrono::DateTime::from_timestamp(secs, nsecs) {
        Some(dt) => Some(UtcTime { dt }),
        None => None,
    }
}

/// Relies on chrono's `DateTime::timestamp`: the whole non-leap seconds
/// since the Unix epoch, negative before it.
#[verifier::external_body]
fn utc_epoch_secs(t: &UtcTime) -> (r: i64)
    ensures
        r == epoch_secs_of(*t),
{
    t.dt.timestamp()
}

/// Relies on chrono's `DateTime::timestamp_subsec_nanos`: the nanoseconds
/// since the last whole second, below two billion (one billion or more
/// only while a leap second is represented).
#[verifier::external_body]
fn utc_subsec_nanos(t: &UtcTime) -> (r: u32)
    ensures
        r == epoch_nanos_of(*t),
        r < 2_000_000_000,
{
    t.dt.timestamp_subsec_nanos()
}

/// Relies on chrono's `TimeZone::with_ymd_and_hms` on `Utc`: `Some` exactly
/// when the given calendar fields name a valid date and time of day.
#[verifier::external_body]
pub fn utc_calendar(year: i32, month: u32, day: u32, hour: u32, min: u32, sec: u32) -> Option<
    UtcTime,
> {
    match <chrono::Utc as chrono::TimeZone>::with_ymd_and_hms(
        &chrono::Utc,
        year,
        month,
        day,
        hour,
        min,
        sec,
    ) {
        chrono::LocalResult::Single(dt) => Some(UtcTime { dt }),
        _ => None,
    }
}

/// Relies on chrono's `TimeDelta::nanoseconds`, which its documentation
/// calls infallible: every signed 64-bit nanosecond count is in range,
/// and `num_nanoseconds` reads back exactly that count.
#[verifier::external_body]
fn timedelta_from_nanos(nanos: i64) -> (r: chrono::TimeDelta)
    ensures
        delta_nanos_of(r) == Some(nanos),
{
    chrono::TimeDelta::nanoseconds(nanos)
}

/// Relies on chrono's `TimeDelta::num_nanoseconds`: the total nanosecond
/// count of the duration, `None` exactly when it overflows 64 signed bits.
#[verifier::external_body]
fn timedelta_num_nanos(d: &chrono::TimeDelta) -> (r: Option<i64>)
    ensures
        r == delta_nanos_of(*d),
{
    d.num_nanoseconds()
}

/// Ergonomic interop between collectd's fixed-point time and chrono's
/// `TimeDelta` and `DateTime`.  The single field holds epoch nanoseconds.
#[derive(Debug, PartialEq, Eq, Structural, Clone, Copy)]
pub struct CdTime(pub u64);

impl CdTime {
    /// Decode a fixed-point time into its nanosecond count.
    pub fn from_fixed(cd: u64) -> (r: CdTime)
        ensures
            r.0 == nanos_of(cd as int),
    {
        CdTime(collectd_to_nanos(cd))
    }

    /// Encode the nanosecond count into fixed-point time.
    pub fn to_fixed(&self) -> (r: u64)
        requires
            self.0 < MAX_ENCODABLE_NANOS,
        ensures
            r == encoded_of(self.0 as int),
    {
        nanos_to_collectd(self.0)
    }

    /// Combine whole epoch seconds and a sub-second nanosecond part into a
    /// nanosecond count; `None` when the total exceeds 64 unsigned bits.
    pub fn from_epoch(secs: u64, subsec_nanos: u32) -> (r: Option<CdTime>)
        ensures
            match r {
                Some(t) => t.0 == secs * 1_000_000_000 + subsec_nanos,
                None => secs * 1_000_000_000 + subsec_nanos > u64::MAX,
            },
    {
        let bound: u64 = (u64::MAX - subsec_nanos as u64) / NANOS_PER_SEC;
        if secs <= bound {
            assert(secs * 1_000_000_000 <= u64::MAX - subsec_nanos) by (nonlinear_arith)
                requires
                    secs <= (u64::MAX - subsec_nanos as u64) / 1_000_000_000,
                    subsec_nanos < 0x1_0000_0000,
            ;
            Some(CdTime(secs * NANOS_PER_SEC + subsec_nanos as u64))
        } else {
            assert(secs * 1_000_000_000 > u64::MAX - subsec_nanos) by (nonlinear_arith)
                requires
                    secs > (u64::MAX - subsec_nanos as u64) / 1_000_000_000,
                    subsec_nanos < 0x1_0000_0000,
            ;
            None
        }
    }

    /// Split the nanosecond count into whole epoch seconds and the
    /// sub-second nanosecond remainder.
    pub fn to_epoch(&self) -> (r: (u64, u32))
        ensures
            r.0 == self.0 as int / 1_000_000_000,
            r.1 == self.0 as int % 1_000_000_000,
    {
        let secs: u64 = self.0 / NANOS_PER_SEC;
        let rem: u64 = self.0 % NANOS_PER_SEC;
        (secs, rem as u32)
    }

    /// The calendar time (UTC) of this nanosecond count: it reads back
    /// the whole seconds and the sub-second nanoseconds of this value.
    pub fn to_datetime(&self) -> (r: UtcTime)
        ensures
            epoch_secs_of(r) == self.0 as int / 1_000_000_000,
            epoch_nanos_of(r) == self.0 as int % 1_000_000_000,
    {
        let (secs, rem) = self.to_epoch();
        proof {
            lemma_div_is_ordered(self.0 as int, u64::MAX as int, 1_000_000_000);
        }
        match utc_from_epoch(secs as i64, rem) {
            Some(dt) => dt,
            None => vstd::pervasive::unreached(),
        }
    }

    /// The nanosecond count of a calendar time; `None` for times before
    /// the epoch, which the unsigned encoding cannot represent, and for
    /// counts beyond 64 unsigned bits.
    pub fn from_datetime(dt: &UtcTime) -> (r: Option<CdTime>)
        ensures
            match r {
                Some(t) => epoch_secs_of(*dt) >= 0 && t.0 == epoch_secs_of(*dt) * 1_000_000_000
                    + epoch_nanos_of(*dt),
                None => epoch_secs_of(*dt) < 0 || epoch_secs_of(*dt) * 1_000_000_000
                    + epoch_nanos_of(*dt) > u64::MAX,
            },
    {
        let secs: i64 = utc_epoch_secs(dt);
        if secs < 0 {
            None
        } else {
            CdTime::from_epoch(secs as u64, utc_subsec_nanos(dt))
        }
    }

    /// Reinterpret the nanosecond count as a signed duration: the result
    /// holds exactly this many nanoseconds, no rounding.
    pub fn to_duration(&self) -> (r: chrono::TimeDelta)
        requires
            self.0 <= i64::MAX,
        ensures
            delta_nanos_of(r) == Some(self.0 as i64),
    {
        timedelta_from_nanos(self.0 as i64)
    }

    /// The nanosecond count of a signed duration; `None` for negative
    /// durations, which the unsigned encoding cannot represent and which
    /// are never wrapped, and for durations whose nanosecond count
    /// overflows 64 signed bits.
    pub fn from_duration(d: &chrono::TimeDelta) -> (r: Option<CdTime>)
        ensures
            match delta_nanos_of(*d) {
                Some(n) => if n >= 0 {
                    r == Some(CdTime(n as u64))
                } else {
                    r is None
                },
                None => r is None,
            },
    {
        match timedelta_num_nanos(d) {
            Some(n) => {
                if n >= 0 {
                    Some(CdTime(n as u64))
                } else {
                    None
                }
            },
            None => None,
        }
    }
}

/// The calendar conversion loses nothing: a calendar time that reads
/// back the epoch split of a nanosecond count (as `to_datetime` ensures
/// of its result) converts back, by `from_datetime`'s contract, to
/// exactly that count — `Some(CdTime(ns))`, never `None`.
pub proof fn lemma_calendar_round_trip(ns: u64, t: UtcTime)
    requires
        epoch_secs_of(t) == ns as int / 1_000_000_000,
        epoch_nanos_of(t) == ns as int % 1_000_000_000,
    ensures
        epoch_secs_of(t) >= 0,
        epoch_secs_of(t) * 1_000_000_000 + epoch_nanos_of(t) == ns,
{
    lemma_fundamental_div_mod(ns as int, 1_000_000_000);
    lemma_mod_division_less_than_divisor(ns as int, 1_000_000_000);
}

/// Decoding inverts encoding exactly: every encodable nanosecond count
/// survives a round trip through the fixed-point representation unchanged,
/// so repeating the encode/decode pair gives the same result as one pass
/// and no rounding error accumulates.
pub proof fn lemma_round_trip(nanos: int)
    requires
        0 <= nanos < MAX_ENCODABLE_NANOS,
    ensures
        nanos_of(encoded_of(nanos)) == nanos,
        encoded_of(nanos_of(encoded_of(nanos))) == encoded_of(nanos),
{
    let s = nanos / 1_000_000_000;
    let f = nanos % 1_000_000_000;
    lemma_fundamental_div_mod(nanos, 1_000_000_000);
    lemma_mod_division_less_than_divisor(nanos, 1_000_000_000);
    let x = f * 0x4000_0000 + 500_000_000;
    let g = x / 1_000_000_000;
    let m = x % 1_000_000_000;
    lemma_fundamental_div_mod(x, 1_000_000_000);
    lemma_mod_division_less_than_divisor(x, 1_000_000_000);
    // The rounded fraction fits in 30 bits.
    assert(0 <= g < 0x4000_0000);
    let e = s * 0x4000_0000 + g;
    assert(encoded_of(nanos) == e);
    lemma_fundamental_div_mod_converse(e, 0x4000_0000, s, g);
    // Scaling the fraction back to nanoseconds recovers f exactly: the
    // two half-up rounding terms land the numerator strictly inside
    // [f * 2^30, (f + 1) * 2^30).
    let y = g * 1_000_000_000 + 0x2000_0000;
    let r = 500_000_000 + 0x2000_0000 - m;
    assert(y == f * 0x4000_0000 + r);
    lemma_fundamental_div_mod_converse(y, 0x4000_0000, f, r);
    assert(nanos_of(e) == s * 1_000_000_000 + f);
}

/// Encoding preserves chronological order: of two nanosecond counts the
/// earlier one never encodes above the later one, so integer comparison of
/// encoded values is a sound proxy for comparing times.
pub proof fn lemma_encode_ordered(a: int, b: int)
    requires
        0 <= a <= b,
    ensures
        encoded_of(a) <= encoded_of(b),
{
    lemma_fundamental_div_mod(a, 1_000_000_000);
    lemma_fundamental_div_mod(b, 1_000_000_000);
    lemma_mod_division_less_than_divisor(a, 1_000_000_000);
    lemma_mod_division_less_than_divisor(b, 1_000_000_000);
    lemma_div_is_ordered(a, b, 1_000_000_000);
    let sa = a / 1_000_000_000;
    let sb = b / 1_000_000_000;
    let xa = (a % 1_000_000_000) * 0x4000_0000 + 500_000_000;
    let xb = (b % 1_000_000_000) * 0x4000_0000 + 500_000_000;
    lemma_mod_division_less_than_divisor(xa, 1_000_000_000);
    lemma_mod_division_less_than_divisor(xb, 1_000_000_000);
    lemma_fundamental_div_mod(xa, 1_000_000_000);
    lemma_fundamental_div_mod(xb, 1_000_000_000);
    if sa == sb {
        lemma_div_is_ordered(xa, xb, 1_000_000_000);
    } else {
        // The whole seconds already differ; a 30-bit fraction cannot
        // bridge a full second.
        assert(xa / 1_000_000_000 < 0x4000_0000);
        assert(xb / 1_000_000_000 >= 0);
    }
}

/// Decoding preserves chronological order as well: of two fixed-point
/// values the smaller one never decodes above the larger one.
pub proof fn lemma_decode_ordered(a: int, b: int)
    requires
        0 <= a <= b,
    ensures
        nanos_of(a) <= nanos_of(b),
{
    lemma_fundamental_div_mod(a, 0x4000_0000);
    lemma_fundamental_div_mod(b, 0x4000_0000);
    lemma_mod_division_less_than_divisor(a, 0x4000_0000);
    lemma_mod_division_less_than_divisor(b, 0x4000_0000);
    lemma_div_is_ordered(a, b, 0x4000_0000);
    let xa = (a % 0x4000_0000) * 1_000_000_000 + 0x2000_0000;
    let xb = (b % 0x4000_0000) * 1_000_000_000 + 0x2000_0000;
    lemma_mod_division_less_than_divisor(xa, 0x4000_0000);
    lemma_mod_division_less_than_divisor(xb, 0x4000_0000);
    lemma_fundamental_div_mod(xa, 0x4000_0000);
    lemma_fundamental_div_mod(xb, 0x4000_0000);
    if a / 0x4000_0000 == b / 0x4000_0000 {
        lemma_div_is_ordered(xa, xb, 0x4000_0000);
    } else {
        assert(xa / 0x4000_0000 < 1_000_000_000);
        assert(xb / 0x4000_0000 >= 0);
    }
}

} // verus!
