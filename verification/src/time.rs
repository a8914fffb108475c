//! Moments in time, and how far they lie apart.

use vstd::prelude::*;

verus! {

/// How many nanoseconds a second has.
pub const NANOS_PER_SECOND: i128 = 1_000_000_000;

/// `seconds` since the start of 1970 and `nanos` behind them are a moment of the calendar. In the
/// last second of a minute the nanoseconds may run through a leap second.
pub open spec fn valid_utc(seconds: int, nanos: int) -> bool {
    &&& -8334601228800 <= seconds <= 8210266876799
    &&& 0 <= nanos < 2_000_000_000
    &&& nanos >= 1_000_000_000 ==> seconds % 60 == 59
}

/// A moment of the calendar, in UTC.
#[derive(Clone, Copy, Debug)]
pub struct UtcTime {
    seconds: i64,
    nanos: u32,
}

impl UtcTime {
    #[verifier::type_invariant]
    spec fn inv(self) -> bool {
        valid_utc(self.seconds as int, self.nanos as int)
    }

    /// Seconds since the start of 1970, leap seconds left out.
    pub closed spec fn spec_seconds(self) -> int {
        self.seconds as int
    }

    /// Nanoseconds since the start of the second, or of the second before a leap second.
    pub closed spec fn spec_nanos(self) -> int {
        self.nanos as int
    }

    /// The moment `seconds` and `nanos` after the start of 1970, if the calendar has it.
    pub fn new(seconds: i64, nanos: u32) -> (r: Option<Self>)
        ensures
            r is Some <==> valid_utc(seconds as int, nanos as int),
            r matches Some(t) ==> t.spec_seconds() == seconds && t.spec_nanos() == nanos,
    {
        let in_minute: i64 = seconds % 60;
        assert(in_minute == 59 || in_minute == -1 <==> seconds as int % 60 == 59);
        if seconds < -8334601228800 || seconds > 8210266876799 || nanos >= 2_000_000_000 || (nanos
            >= 1_000_000_000 && in_minute != 59 && in_minute != -1) {
            return None;
        }
        Some(UtcTime { seconds, nanos })
    }

    pub fn seconds(&self) -> (seconds: i64)
        ensures
            seconds == self.spec_seconds(),
    {
        self.seconds
    }

    pub fn nanos(&self) -> (nanos: u32)
        ensures
            nanos == self.spec_nanos(),
    {
        self.nanos
    }

    /// The present moment, as the machine's clock gives it. It never lies inside a leap second, so a span from it to another moment
    /// that does not is the plain difference of the two.
    pub fn now() -> (out: Self)
        ensures
            utc_reading(out.spec_seconds(), out.spec_nanos()),
            valid_utc(out.spec_seconds(), out.spec_nanos()),
            out.spec_nanos() < 1_000_000_000,
    {
        let (seconds, nanos) = utc_now();
        UtcTime { seconds, nanos }
    }

    /// The nanoseconds from `earlier` to this moment; below zero if `earlier` comes later.
    pub fn nanos_since(&self, earlier: &UtcTime) -> (span: i128)
        ensures
            span == self.span_since(*earlier),
    {
        proof {
            use_type_invariant(self);
            use_type_invariant(earlier);
        }
        let (seconds, nanos) = utc_difference(
            (self.seconds, self.nanos),
            (earlier.seconds, earlier.nanos),
        );
        seconds as i128 * NANOS_PER_SECOND + nanos as i128
    }

    /// The nanoseconds from `earlier` to this moment.
    pub open spec fn span_since(self, earlier: UtcTime) -> int {
        utc_span(
            self.spec_seconds(),
            self.spec_nanos(),
            earlier.spec_seconds(),
            earlier.spec_nanos(),
        )
    }
}

/// The nanoseconds between two moments. A leap second that one of them lies in counts where the
/// other comes at an earlier, or a later, time of the day.
pub open spec fn utc_span(
    later_seconds: int,
    later_nanos: int,
    earlier_seconds: int,
    earlier_nanos: int,
) -> int {
    let leap: int = if later_seconds % 86400 > earlier_seconds % 86400 && earlier_nanos
        >= 1_000_000_000 {
        1
    } else if later_seconds % 86400 < earlier_seconds % 86400 && later_nanos >= 1_000_000_000 {
        -1
    } else {
        0
    };
    (later_seconds - earlier_seconds + leap) * 1_000_000_000 + (later_nanos - earlier_nanos)
}

/// The machine's clock can give this moment as the present one: `seconds` since the start of 1970
/// and `nanos` behind them.
pub uninterp spec fn utc_reading(seconds: int, nanos: int) -> bool;

/// `chrono::Utc::now`, as seconds since the start of 1970 and nanoseconds behind them. All that
/// is stated of the present is that the clock can give it, that the calendar has it, and that it
/// lies in no leap second: the nanoseconds are those of a `std::time::Duration` behind its whole
/// seconds, of which there are fewer than a billion.
#[verifier::external_body]
fn utc_now() -> (r: (i64, u32))
    ensures
        utc_reading(r.0 as int, r.1 as int),
        valid_utc(r.0 as int, r.1 as int),
        r.1 < 1_000_000_000,
{
    let now = chrono::Utc::now();
    (now.timestamp(), now.timestamp_subsec_nanos())
}

/// The difference of two `chrono::DateTime<Utc>`, each made by `from_timestamp`: whole seconds,
/// and nanoseconds with the same sign, that together are the span between the two moments.
#[verifier::external_body]
fn utc_difference(later: (i64, u32), earlier: (i64, u32)) -> (r: (i64, i32))
    requires
        valid_utc(later.0 as int, later.1 as int),
        valid_utc(earlier.0 as int, earlier.1 as int),
    ensures
        r.0 * 1_000_000_000 + r.1 == utc_span(
            later.0 as int,
            later.1 as int,
            earlier.0 as int,
            earlier.1 as int,
        ),
{
    let later = chrono::DateTime::from_timestamp(later.0, later.1).unwrap();
    let earlier = chrono::DateTime::from_timestamp(earlier.0, earlier.1).unwrap();
    let span = later - earlier;
    (span.num_seconds(), span.subsec_nanos())
}

/// A moment on the machine's clock that never goes back.
#[verifier::external_type_specification]
#[verifier::external_body]
pub struct ExInstant(std::time::Instant);

/// `std::time::Instant::now`. Nothing is stated of the moment.
#[verifier::external_body]
fn instant_now() -> std::time::Instant {
    std::time::Instant::now()
}

/// `std::time::Instant::elapsed`, in nanoseconds. All that is stated of them is what a
/// `std::time::Duration` can hold: whole seconds in 64 bits, and less than a second behind them. How
/// many have passed rests on the time; that they are counted from `start` is what
/// `MonotonicClock::reads` says of a call.
#[verifier::external_body]
fn nanos_elapsed(start: &std::time::Instant) -> (nanos: u128)
    ensures
        nanos <= clock_end(),
{
    start.elapsed().as_nanos()
}

/// Calls `read` on `start`, and says of the result that it came of this call.
fn read_clock<F: Fn(&std::time::Instant) -> u128>(read: F, start: &std::time::Instant) -> (nanos:
    u128)
    requires
        call_requires(read, (start,)),
    ensures
        call_ensures(read, (start,), nanos),
{
    read(start)
}

/// Calls `take`, and says of the result that it came of this call.
fn take_moment<F: Fn() -> std::time::Instant>(take: F) -> (moment: std::time::Instant)
    requires
        call_requires(take, ()),
    ensures
        call_ensures(take, (), moment),
{
    take()
}

/// A moment that no `MonotonicClock` counts beyond: whole seconds in 64 bits, and less than a second
/// behind them.
pub open spec fn clock_end() -> int {
    u64::MAX * 1_000_000_000 + 999_999_999
}

/// A clock that never goes back. It counts nanoseconds from its making.
pub struct MonotonicClock {
    start: std::time::Instant,
}

impl MonotonicClock {
    /// This clock can read `nanos` at some moment: so many nanoseconds can have passed since its own
    /// start.
    pub closed spec fn reads(&self, nanos: u128) -> bool {
        call_ensures(nanos_elapsed, (&self.start,), nanos)
    }

    /// The machine gave the moment at which this clock starts as the present one.
    pub closed spec fn starts_at_a_present(&self) -> bool {
        call_ensures(instant_now, (), self.start)
    }

    /// A clock that starts now.
    pub fn start() -> (clock: Self)
        ensures
            clock.starts_at_a_present(),
    {
        MonotonicClock { start: take_moment(instant_now) }
    }

    /// What this clock reads at present, in nanoseconds. It lies far below the end of 128 bits, so
    /// that a moment which is some span of the calendar later can be counted too.
    pub fn now(&self) -> (nanos: u128)
        ensures
            self.reads(nanos),
            nanos <= clock_end(),
    {
        read_clock(nanos_elapsed, &self.start)
    }
}

/// Between moments that lie in no leap second, the nanoseconds are the plain difference of the two;
/// between any two moments, they are the same back and forth but for the sign.
pub proof fn a_span_is_the_difference_of_two_moments(
    later: UtcTime,
    earlier: UtcTime,
    span: i128,
    back: i128,
)
    requires
        call_ensures(UtcTime::nanos_since, (&later, &earlier), span),
        call_ensures(UtcTime::nanos_since, (&earlier, &later), back),
    ensures
        later.spec_nanos() < 1_000_000_000 && earlier.spec_nanos() < 1_000_000_000 ==> span == (
        later.spec_seconds() * 1_000_000_000 + later.spec_nanos()) - (earlier.spec_seconds()
            * 1_000_000_000 + earlier.spec_nanos()),
        span == -back,
{
}

/// A moment keeps the seconds and nanoseconds that it was made of. The calendar has a first and a last
/// second, and a leap second only at the end of a minute.
pub proof fn a_moment_keeps_what_it_was_made_of(
    seconds: i64,
    nanos: u32,
    moment: Option<UtcTime>,
)
    requires
        call_ensures(UtcTime::new, (seconds, nanos), moment),
    ensures
        moment matches Some(t) ==> t.spec_seconds() == seconds && t.spec_nanos() == nanos,
        nanos < 1_000_000_000 ==> (moment is Some <==> -8334601228800 <= seconds <= 8210266876799),
        nanos >= 2_000_000_000 ==> moment is None,
        1_000_000_000 <= nanos < 2_000_000_000 ==> (moment is Some <==> -8334601228800 <= seconds
            <= 8210266876799 && (seconds + 1) % 60 == 0),
{
}

} // verus!
