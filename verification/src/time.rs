//! Lengths of time, points in time, and their text form.
use vstd::prelude::*;

verus! {

/// Nanoseconds in a second.
pub const NANOS_PER_SEC: u32 = 1_000_000_000;

/// The last second that a calendar date can be written for.
pub const LAST_SECOND: i64 = 8_210_266_876_799;

/// A length of time: whole seconds and a fraction in nanoseconds.
#[derive(Clone, Copy, Debug, PartialEq, Eq, Structural)]
pub struct TimeSpan {
    pub secs: u64,
    pub nanos: u32,
}

/// Length of the longest [`TimeSpan`], in nanoseconds.
pub open spec fn longest() -> nat {
    (u64::MAX * 1_000_000_000 + 999_999_999) as nat
}

/// The span of whole seconds.
pub open spec fn seconds(secs: u64) -> TimeSpan {
    TimeSpan { secs, nanos: 0 }
}

/// The span of whole milliseconds.
pub open spec fn milliseconds(millis: u64) -> TimeSpan {
    TimeSpan { secs: millis / 1000, nanos: ((millis % 1000) * 1_000_000) as u32 }
}

impl TimeSpan {
    /// The fraction is less than a second.
    pub open spec fn wf(self) -> bool {
        self.nanos < NANOS_PER_SEC
    }

    /// The length in nanoseconds.
    pub open spec fn length(self) -> nat {
        (self.secs * 1_000_000_000 + self.nanos) as nat
    }

    pub fn from_secs(secs: u64) -> (r: TimeSpan)
        ensures
            r.wf(),
            r == seconds(secs),
    {
        TimeSpan { secs, nanos: 0 }
    }

    pub fn from_millis(millis: u64) -> (r: TimeSpan)
        ensures
            r.wf(),
            r == milliseconds(millis),
            r.length() == millis * 1_000_000,
    {
        TimeSpan { secs: millis / 1000, nanos: ((millis % 1000) * 1_000_000) as u32 }
    }

    /// The span of the given number of nanoseconds.
    fn from_nanos(nanos: u128) -> (r: TimeSpan)
        requires
            nanos <= longest(),
        ensures
            r.wf(),
            r.length() == nanos,
    {
        TimeSpan {
            secs: (nanos / 1_000_000_000) as u64,
            nanos: (nanos % 1_000_000_000) as u32,
        }
    }

    /// The whole length in nanoseconds.
    pub fn as_nanos(self) -> (r: u128)
        ensures
            r == self.length(),
    {
        self.secs as u128 * 1_000_000_000 + self.nanos as u128
    }

    pub fn is_zero(self) -> (r: bool)
        ensures
            r == (self.length() == 0),
    {
        self.secs == 0 && self.nanos == 0
    }

    /// `factor` times this span, or the longest span where that is shorter.
    pub fn saturating_times(self, factor: u32) -> (r: TimeSpan)
        requires
            self.wf(),
        ensures
            r.wf(),
            r.length() == if self.length() * factor <= longest() {
                (self.length() * factor) as nat
            } else {
                longest()
            },
    {
        let nanos: u128 = self.as_nanos();
        let most: u128 = u64::MAX as u128 * 1_000_000_000 + 999_999_999;
        assert(nanos * factor <= most * 0xffff_ffff) by (nonlinear_arith)
            requires
                0 <= nanos <= most,
                0 <= factor <= 0xffff_ffff,
        ;
        let product: u128 = nanos * factor as u128;
        if product <= most {
            TimeSpan::from_nanos(product)
        } else {
            TimeSpan::from_nanos(most)
        }
    }

    /// This span divided by `divisor`, rounded down to a nanosecond.
    pub fn divided(self, divisor: u32) -> (r: TimeSpan)
        requires
            self.wf(),
            divisor > 0,
        ensures
            r.wf(),
            r.length() == self.length() / (divisor as nat),
    {
        let nanos: u128 = self.as_nanos();
        let quotient: u128 = nanos / divisor as u128;
        assert(quotient <= nanos) by (nonlinear_arith)
            requires
                quotient == nanos / (divisor as u128),
                divisor > 0,
        ;
        TimeSpan::from_nanos(quotient)
    }
}

/// A point in time: seconds since the Unix epoch and a fraction in nanoseconds.
#[derive(Clone, Copy, Debug, PartialEq, Eq, Structural)]
pub struct UnixTime {
    pub secs: i64,
    pub nanos: u32,
}

impl UnixTime {
    /// A reading that a calendar date can be written for: not before the
    /// epoch, and not after the last representable second.
    pub open spec fn wf(self) -> bool {
        &&& 0 <= self.secs <= LAST_SECOND
        &&& self.nanos < NANOS_PER_SEC
    }

    /// Nanoseconds since the epoch.
    pub open spec fn instant(self) -> int {
        self.secs * 1_000_000_000 + self.nanos
    }

    /// Whether this reading is [`UnixTime::wf`].
    pub fn is_wf(self) -> (r: bool)
        ensures
            r == self.wf(),
    {
        0 <= self.secs && self.secs <= LAST_SECOND && self.nanos < NANOS_PER_SEC
    }
}

/// The longest span that a calendar date can be moved by: `i64::MAX`
/// milliseconds.
pub open spec fn longest_shift() -> nat {
    (i64::MAX * 1_000_000) as nat
}

/// The shift by a span, in nanoseconds. One that is longer than
/// [`longest_shift`] counts as none.
pub open spec fn shift(ttl: TimeSpan) -> nat {
    if ttl.length() <= longest_shift() {
        ttl.length()
    } else {
        0
    }
}

/// Whether a calendar date can be written for `now` moved by `ttl`.
pub open spec fn reaches(now: UnixTime, ttl: TimeSpan) -> bool {
    &&& now.wf()
    &&& now.instant() + shift(ttl) < (LAST_SECOND + 1) * 1_000_000_000
}

/// Converts a span through `chrono::Duration::from_std`.
///
/// Trusted: the conversion keeps the length of every span of up to `i64::MAX`
/// milliseconds and refuses the longer ones.
#[verifier::external_body]
fn shift_of(ttl: TimeSpan) -> (r: Option<(i64, u32)>)
    requires
        ttl.wf(),
    ensures
        r is Some <==> ttl.length() <= longest_shift(),
        r matches Some(d) ==> d.0 == ttl.secs && d.1 == ttl.nanos,
{
    chrono::Duration::from_std(std::time::Duration::new(ttl.secs, ttl.nanos))
        .ok()
        .map(|d| (d.num_seconds(), d.subsec_nanos() as u32))
}

/// Moves a point in time through `chrono::DateTime::checked_add_signed`.
///
/// Trusted: the sum is exact, and it is refused where it lies behind the last
/// second of the calendar.
#[verifier::external_body]
fn moved(now: UnixTime, secs: i64, nanos: u32) -> (r: Option<UnixTime>)
    requires
        now.wf(),
        0 <= secs,
        secs * 1_000_000_000 + nanos <= longest_shift(),
        nanos < NANOS_PER_SEC,
    ensures
        r is Some <==> now.instant() + secs * 1_000_000_000 + nanos < (LAST_SECOND + 1)
            * 1_000_000_000,
        r matches Some(t) ==> t.wf() && t.instant() == now.instant() + secs * 1_000_000_000
            + nanos,
{
    chrono::DateTime::from_timestamp(now.secs, now.nanos)?
        .checked_add_signed(chrono::Duration::new(secs, nanos)?)
        .map(|t| UnixTime { secs: t.timestamp(), nanos: t.timestamp_subsec_nanos() })
}

/// The RFC 3339 text, in UTC and to the second, for the given second since the
/// epoch.
pub uninterp spec fn rfc3339(secs: int) -> Seq<char>;

/// Writes a point in time through `chrono::DateTime::to_rfc3339_opts`, in UTC,
/// with whole seconds and a `Z`.
///
/// Trusted: the text depends on the second alone; the fraction is cut off.
#[verifier::external_body]
fn written(at: UnixTime) -> (r: String)
    requires
        at.wf(),
    ensures
        r@ == rfc3339(at.secs as int),
{
    chrono::DateTime::from_timestamp(at.secs, at.nanos)
        .unwrap()
        .to_rfc3339_opts(chrono::SecondsFormat::Secs, true)
}

/// The text for `now`.
pub fn now_rfc3339(now: UnixTime) -> (r: String)
    requires
        now.wf(),
    ensures
        r@ == rfc3339(now.secs as int),
{
    written(now)
}

/// The second in which a span that begins at `now` ends.
pub open spec fn end_second(now: UnixTime, ttl: TimeSpan) -> int {
    (now.instant() + shift(ttl)) / 1_000_000_000
}

/// The text for the time at which `ttl`, counted from `now`, is over.
pub fn rfc3339_after(now: UnixTime, ttl: TimeSpan) -> (r: String)
    requires
        ttl.wf(),
        reaches(now, ttl),
    ensures
        r@ == rfc3339(end_second(now, ttl)),
{
    match shift_of(ttl) {
        Some((secs, nanos)) => match moved(now, secs, nanos) {
            Some(end) => written(end),
            None => {
                assert(false);
                written(now)
            },
        },
        None => written(now),
    }
}

/// Whether [`rfc3339_after`] can write the end of `ttl` counted from `now`.
pub fn can_reach(now: UnixTime, ttl: TimeSpan) -> (r: bool)
    ensures
        r == reaches(now, ttl),
{
    if !now.is_wf() {
        return false;
    }
    let longest_shift: u128 = i64::MAX as u128 * 1_000_000;
    let length: u128 = ttl.as_nanos();
    let shift: u128 = if length <= longest_shift {
        length
    } else {
        0
    };
    let start: u128 = now.secs as u128 * 1_000_000_000 + now.nanos as u128;
    start + shift < (LAST_SECOND as u128 + 1) * 1_000_000_000
}

/// Whole milliseconds as an optional span; none stays none.
pub fn ttl_from_ms(ttl_ms: Option<u64>) -> (r: Option<TimeSpan>)
    ensures
        r is Some <==> ttl_ms is Some,
        r matches Some(ttl) ==> ttl.wf() && ttl.length() == ttl_ms->0 * 1_000_000,
{
    match ttl_ms {
        Some(ms) => Some(TimeSpan::from_millis(ms)),
        None => None,
    }
}

/// Nanoseconds since the epoch, for a clock reading that is a span since the
/// epoch or, on a clock that stands before it, nothing.
pub fn now_unix_nanos(since_epoch: Option<TimeSpan>) -> (r: u128)
    ensures
        r == match since_epoch {
            Some(span) => span.length(),
            None => 0,
        },
{
    match since_epoch {
        Some(span) => span.as_nanos(),
        None => 0,
    }
}

} // verus!
