//! A clock for targets without a system clock: `Instant` and `SystemTime`
//! count ticks of a counter, and one tick is read as one nanosecond.

use vstd::prelude::*;
use vstd::std_specs::ops::{AddSpec, SubSpec};

verus! {

/// Nanoseconds in one second.
pub const NANOS_PER_SEC: u32 = 1_000_000_000;

/// The largest span a `Duration` can hold, in nanoseconds.
pub open spec fn max_duration_nanos() -> nat {
    (u64::MAX as nat) * (NANOS_PER_SEC as nat) + (NANOS_PER_SEC as nat - 1) as nat
}

/// A span of time: whole seconds and the nanoseconds below one second.
#[derive(Debug, Clone, Copy, PartialEq, Eq, Structural, PartialOrd, Ord, Hash)]
pub struct Duration {
    secs: u64,
    nanos: u32,
}

impl Duration {
    #[verifier::type_invariant]
    closed spec fn well_formed(self) -> bool {
        self.nanos < NANOS_PER_SEC
    }
}

impl View for Duration {
    type V = nat;

    /// The span in nanoseconds.
    closed spec fn view(&self) -> nat {
        (self.secs as nat) * (NANOS_PER_SEC as nat) + (self.nanos as nat)
    }
}

impl Duration {
    /// The span of `secs` seconds and `nanos` nanoseconds; nanoseconds beyond
    /// one second carry over into the seconds.
    pub fn new(secs: u64, nanos: u32) -> (d: Duration)
        requires
            secs as int + nanos as int / NANOS_PER_SEC as int <= u64::MAX,
        ensures
            d@ == secs as nat * NANOS_PER_SEC as nat + nanos as nat,
    {
        let extra: u32 = nanos / NANOS_PER_SEC;
        let rest: u32 = nanos % NANOS_PER_SEC;
        assert(nanos as int == extra as int * 1_000_000_000 + rest as int) by (nonlinear_arith)
            requires
                extra == nanos / 1_000_000_000,
                rest == nanos % 1_000_000_000,
        ;
        Duration { secs: secs + extra as u64, nanos: rest }
    }

    /// The span of `nanos` nanoseconds.
    pub fn from_nanos(nanos: u64) -> (d: Duration)
        ensures
            d@ == nanos as nat,
    {
        let secs: u64 = nanos / (NANOS_PER_SEC as u64);
        let rest: u64 = nanos % (NANOS_PER_SEC as u64);
        assert(nanos as int == secs as int * 1_000_000_000 + rest as int) by (nonlinear_arith)
            requires
                secs == nanos / 1_000_000_000,
                rest == nanos % 1_000_000_000,
        ;
        Duration { secs, nanos: rest as u32 }
    }

    /// The span of `secs` whole seconds.
    pub fn from_secs(secs: u64) -> (d: Duration)
        ensures
            d@ == secs as nat * NANOS_PER_SEC as nat,
    {
        Duration { secs, nanos: 0 }
    }

    /// The span of `millis` milliseconds.
    pub fn from_millis(millis: u64) -> (d: Duration)
        ensures
            d@ == millis as nat * 1_000_000,
    {
        let secs: u64 = millis / 1000;
        let rest: u64 = millis % 1000;
        let nanos: u32 = (rest as u32) * 1_000_000;
        let d = Duration { secs, nanos };
        assert(d@ == millis as nat * 1_000_000) by (nonlinear_arith)
            requires
                secs == millis / 1000,
                rest == millis % 1000,
                nanos == rest * 1_000_000,
                d@ == secs * 1_000_000_000 + nanos,
        ;
        d
    }

    /// The whole span in nanoseconds.
    pub fn as_nanos(&self) -> (n: u128)
        ensures
            n as nat == self@,
    {
        proof {
            use_type_invariant(self);
        }
        assert((self.secs as nat) * (NANOS_PER_SEC as nat) <= (u64::MAX as nat) * 1_000_000_000)
            by (nonlinear_arith)
            requires
                self.secs <= u64::MAX,
                NANOS_PER_SEC == 1_000_000_000,
        ;
        (self.secs as u128) * (NANOS_PER_SEC as u128) + (self.nanos as u128)
    }

    /// The number of whole seconds in the span.
    pub fn as_secs(&self) -> (s: u64)
        ensures
            s as nat == self@ / (NANOS_PER_SEC as nat),
    {
        proof {
            use_type_invariant(self);
        }
        self.secs
    }

    /// The nanoseconds of the span beyond its whole seconds.
    pub fn subsec_nanos(&self) -> (n: u32)
        ensures
            n as nat == self@ % (NANOS_PER_SEC as nat),
    {
        proof {
            use_type_invariant(self);
        }
        self.nanos
    }

    /// The sum of two spans, `None` where it is beyond the largest span.
    pub fn checked_add(self, rhs: Duration) -> (r: Option<Duration>)
        ensures
            match r {
                Some(sum) => self@ + rhs@ <= max_duration_nanos() && sum@ == self@ + rhs@,
                None => self@ + rhs@ > max_duration_nanos(),
            },
    {
        proof {
            use_type_invariant(self);
            use_type_invariant(rhs);
        }
        let ghost a = self.secs as int;
        let ghost b = rhs.secs as int;
        let ghost x = self.nanos as int;
        let ghost y = rhs.nanos as int;
        match self.secs.checked_add(rhs.secs) {
            Some(secs) => {
                let nanos: u32 = self.nanos + rhs.nanos;
                if nanos >= NANOS_PER_SEC {
                    match secs.checked_add(1) {
                        Some(carried) => {
                            let sum = Duration { secs: carried, nanos: nanos - NANOS_PER_SEC };
                            assert(sum@ == self@ + rhs@) by (nonlinear_arith)
                                requires
                                    sum@ == (a + b + 1) * 1_000_000_000 + (x + y - 1_000_000_000),
                                    self@ == a * 1_000_000_000 + x,
                                    rhs@ == b * 1_000_000_000 + y,
                            ;
                            Some(sum)
                        },
                        None => {
                            assert(self@ + rhs@ > max_duration_nanos()) by (nonlinear_arith)
                                requires
                                    a + b == u64::MAX,
                                    x + y >= 1_000_000_000,
                                    self@ == a * 1_000_000_000 + x,
                                    rhs@ == b * 1_000_000_000 + y,
                                    max_duration_nanos() == u64::MAX * 1_000_000_000 + 999_999_999,
                            ;
                            None
                        },
                    }
                } else {
                    let sum = Duration { secs, nanos };
                    assert(sum@ == self@ + rhs@) by (nonlinear_arith)
                        requires
                            sum@ == (a + b) * 1_000_000_000 + (x + y),
                            self@ == a * 1_000_000_000 + x,
                            rhs@ == b * 1_000_000_000 + y,
                    ;
                    assert(sum@ <= max_duration_nanos()) by (nonlinear_arith)
                        requires
                            sum@ == (a + b) * 1_000_000_000 + (x + y),
                            a + b <= u64::MAX,
                            x + y < 1_000_000_000,
                            max_duration_nanos() == u64::MAX * 1_000_000_000 + 999_999_999,
                    ;
                    Some(sum)
                }
            },
            None => {
                assert(self@ + rhs@ > max_duration_nanos()) by (nonlinear_arith)
                    requires
                        a + b > u64::MAX,
                        x >= 0,
                        y >= 0,
                        self@ == a * 1_000_000_000 + x,
                        rhs@ == b * 1_000_000_000 + y,
                        max_duration_nanos() == u64::MAX * 1_000_000_000 + 999_999_999,
                ;
                None
            },
        }
    }

    /// The difference of two spans, `None` where `rhs` is the longer.
    pub fn checked_sub(self, rhs: Duration) -> (r: Option<Duration>)
        ensures
            match r {
                Some(d) => self@ >= rhs@ && d@ == self@ - rhs@,
                None => self@ < rhs@,
            },
    {
        proof {
            use_type_invariant(self);
            use_type_invariant(rhs);
        }
        let ghost a = self.secs as int;
        let ghost b = rhs.secs as int;
        let ghost x = self.nanos as int;
        let ghost y = rhs.nanos as int;
        if self.secs < rhs.secs || (self.secs == rhs.secs && self.nanos < rhs.nanos) {
            assert(self@ < rhs@) by (nonlinear_arith)
                requires
                    a < b || (a == b && x < y),
                    0 <= x < 1_000_000_000,
                    0 <= y < 1_000_000_000,
                    self@ == a * 1_000_000_000 + x,
                    rhs@ == b * 1_000_000_000 + y,
            ;
            None
        } else if self.nanos >= rhs.nanos {
            let d = Duration { secs: self.secs - rhs.secs, nanos: self.nanos - rhs.nanos };
            assert(self@ >= rhs@ && d@ == self@ - rhs@) by (nonlinear_arith)
                requires
                    a >= b,
                    x >= y,
                    d@ == (a - b) * 1_000_000_000 + (x - y),
                    self@ == a * 1_000_000_000 + x,
                    rhs@ == b * 1_000_000_000 + y,
            ;
            Some(d)
        } else {
            let d = Duration { secs: self.secs - rhs.secs - 1, nanos: self.nanos + NANOS_PER_SEC - rhs.nanos };
            assert(self@ >= rhs@ && d@ == self@ - rhs@) by (nonlinear_arith)
                requires
                    a > b,
                    x < y,
                    d@ == (a - b - 1) * 1_000_000_000 + (x + 1_000_000_000 - y),
                    self@ == a * 1_000_000_000 + x,
                    rhs@ == b * 1_000_000_000 + y,
            ;
            Some(d)
        }
    }
}

/// The state of the tick counter that both clocks read: the value the next
/// reading of `Instant::now` returns.
#[derive(Debug)]
pub struct TickCounter {
    next: u64,
}

impl View for TickCounter {
    type V = nat;

    closed spec fn view(&self) -> nat {
        self.next as nat
    }
}

impl TickCounter {
    /// A counter that starts at zero.
    pub fn new() -> (c: TickCounter)
        ensures
            c@ == 0,
    {
        TickCounter { next: 0 }
    }

    /// The current value of the counter, which it keeps.
    pub fn current(&self) -> (t: u64)
        ensures
            t as nat == self@,
    {
        self.next
    }

    /// Takes the current value and moves the counter one tick on, wrapping
    /// around past `u64::MAX`.
    pub fn take_tick(&mut self) -> (t: u64)
        ensures
            t as nat == old(self)@,
            final(self)@ == (old(self)@ + 1) % 0x1_0000_0000_0000_0000,
    {
        let t = self.next;
        self.next = self.next.wrapping_add(1);
        t
    }
}

/// A point on the monotonic clock, as a tick count.
#[derive(Debug, Clone, Copy, PartialEq, Eq, Structural, PartialOrd, Ord, Hash)]
pub struct Instant(u64);

impl View for Instant {
    type V = nat;

    closed spec fn view(&self) -> nat {
        self.0 as nat
    }
}

/// The instant at tick `t`.
pub closed spec fn instant_at(t: nat) -> Instant {
    Instant(t as u64)
}

/// The wall-clock point at tick `t`.
pub closed spec fn system_time_at(t: nat) -> SystemTime {
    SystemTime(t as u64)
}

/// The span of `n` nanoseconds.
pub closed spec fn duration_of(n: nat) -> Duration {
    Duration { secs: (n / NANOS_PER_SEC as nat) as u64, nanos: (n % NANOS_PER_SEC as nat) as u32 }
}

/// A span is fixed by its length in nanoseconds.
proof fn lemma_duration_unique(d: Duration, n: nat)
    requires
        d.nanos < NANOS_PER_SEC,
        d@ == n,
    ensures
        d == duration_of(n),
{
    let s = d.secs as int;
    let r = d.nanos as int;
    assert(s == n / 1_000_000_000 && r == n % 1_000_000_000) by (nonlinear_arith)
        requires
            n == s * 1_000_000_000 + r,
            0 <= r < 1_000_000_000,
            0 <= s,
    ;
}

/// A span of at most the largest length is read back at that length.
proof fn lemma_duration_of_view(n: nat)
    requires
        n <= max_duration_nanos(),
    ensures
        duration_of(n)@ == n,
{
    assert(n / 1_000_000_000 <= u64::MAX && n == (n / 1_000_000_000) * 1_000_000_000 + n % 1_000_000_000)
        by (nonlinear_arith)
        requires
            n <= u64::MAX * 1_000_000_000 + 999_999_999,
    ;
}

/// `later - earlier` where that is not negative, else zero.
pub open spec fn saturating_diff(later: nat, earlier: nat) -> nat {
    if later >= earlier {
        (later - earlier) as nat
    } else {
        0
    }
}

impl Instant {
    /// Reads the clock: the current tick, after which the counter moves on.
    pub fn now(counter: &mut TickCounter) -> (i: Instant)
        ensures
            i@ == old(counter)@,
            final(counter)@ == (old(counter)@ + 1) % 0x1_0000_0000_0000_0000,
    {
        Instant(counter.take_tick())
    }

    /// The time passed from this instant to the counter's current tick, zero
    /// where the counter has not reached it.
    pub fn elapsed(&self, counter: &TickCounter) -> (d: Duration)
        ensures
            d@ == saturating_diff(counter@, self@),
    {
        Duration::from_nanos(counter.current().saturating_sub(self.0))
    }

    /// The time from `earlier` to this instant, zero where `earlier` is later.
    pub fn duration_since(&self, earlier: Instant) -> (d: Duration)
        ensures
            d@ == saturating_diff(self@, earlier@),
    {
        Duration::from_nanos(self.0.saturating_sub(earlier.0))
    }

    /// The time from `earlier` to this instant, `None` where `earlier` is later.
    pub fn checked_duration_since(&self, earlier: Instant) -> (r: Option<Duration>)
        ensures
            match r {
                Some(d) => self@ >= earlier@ && d@ == self@ - earlier@,
                None => self@ < earlier@,
            },
    {
        match self.0.checked_sub(earlier.0) {
            Some(n) => Some(Duration::from_nanos(n)),
            None => None,
        }
    }

    /// The same as `duration_since`.
    pub fn saturating_duration_since(&self, earlier: Instant) -> (d: Duration)
        ensures
            d@ == saturating_diff(self@, earlier@),
    {
        self.duration_since(earlier)
    }

    /// The instant `duration` after this one, `None` where it lies beyond the
    /// last tick.
    pub fn checked_add(&self, duration: Duration) -> (r: Option<Instant>)
        ensures
            match r {
                Some(i) => self@ + duration@ <= u64::MAX && i@ == self@ + duration@,
                None => self@ + duration@ > u64::MAX,
            },
    {
        match nanos_as_ticks(&duration) {
            Some(d) => match self.0.checked_add(d) {
                Some(t) => Some(Instant(t)),
                None => None,
            },
            None => None,
        }
    }

    /// The instant `duration` before this one, `None` where it lies before the
    /// first tick.
    pub fn checked_sub(&self, duration: Duration) -> (r: Option<Instant>)
        ensures
            match r {
                Some(i) => duration@ <= self@ && i@ == self@ - duration@,
                None => duration@ > self@,
            },
    {
        match nanos_as_ticks(&duration) {
            Some(d) => match self.0.checked_sub(d) {
                Some(t) => Some(Instant(t)),
                None => None,
            },
            None => None,
        }
    }
}

/// The span as a number of ticks, `None` where it has more than `u64::MAX`.
fn nanos_as_ticks(duration: &Duration) -> (r: Option<u64>)
    ensures
        match r {
            Some(t) => t as nat == duration@,
            None => duration@ > u64::MAX,
        },
{
    let n = duration.as_nanos();
    if n <= u64::MAX as u128 {
        Some(n as u64)
    } else {
        None
    }
}

/// A point on the wall clock, as a tick count from `UNIX_EPOCH`.
#[derive(Debug, Clone, Copy, PartialEq, Eq, Structural, PartialOrd, Ord, Hash)]
pub struct SystemTime(u64);

/// The wall clock's origin, tick zero.
pub fn unix_epoch() -> (t: SystemTime)
    ensures
        t@ == 0,
{
    SystemTime(0)
}

impl View for SystemTime {
    type V = nat;

    closed spec fn view(&self) -> nat {
        self.0 as nat
    }
}

/// What `duration_since` gives back when `earlier` is in fact later: the
/// time by which it is later.
#[derive(Debug, Clone, Copy)]
pub struct SystemTimeError(Duration);

impl View for SystemTimeError {
    type V = nat;

    closed spec fn view(&self) -> nat {
        self.0@
    }
}

impl SystemTimeError {
    /// The span that the error holds.
    pub closed spec fn span(self) -> Duration {
        self.0
    }

    /// The time by which the second point was later than the first.
    pub fn duration(&self) -> (d: Duration)
        ensures
            d@ == self@,
            d == self.span(),
    {
        self.0
    }

    /// The text that describes this error.
    pub fn message(&self) -> (s: &'static str)
        ensures
            s@ == "second time provided was later than self"@,
    {
        proof {
            reveal_strlit("second time provided was later than self");
        }
        "second time provided was later than self"
    }
}

/// The outcome of measuring from `earlier` to `later` on the wall clock.
pub open spec fn measured_between(later: nat, earlier: nat, r: Result<Duration, SystemTimeError>) -> bool {
    match r {
        Ok(d) => later >= earlier && d@ == later - earlier,
        Err(e) => later < earlier && e@ == earlier - later,
    }
}

impl SystemTime {
    /// Reads the wall clock: the counter's current tick, which it keeps.
    pub fn now(counter: &TickCounter) -> (t: SystemTime)
        ensures
            t@ == counter@,
    {
        SystemTime(counter.current())
    }

    /// The time from `earlier` to this point, or, where `earlier` is later,
    /// an error that holds the time from this point to `earlier`.
    pub fn duration_since(&self, earlier: SystemTime) -> (r: Result<Duration, SystemTimeError>)
        ensures
            measured_between(self@, earlier@, r),
    {
        match self.0.checked_sub(earlier.0) {
            Some(n) => Ok(Duration::from_nanos(n)),
            None => Err(SystemTimeError(Duration::from_nanos(earlier.0 - self.0))),
        }
    }

    /// The time from this point to the counter's current tick, or an error
    /// where this point is later.
    pub fn elapsed(&self, counter: &TickCounter) -> (r: Result<Duration, SystemTimeError>)
        ensures
            measured_between(counter@, self@, r),
    {
        SystemTime::now(counter).duration_since(*self)
    }

    /// The point `duration` after this one, `None` where it lies beyond the
    /// last tick.
    pub fn checked_add(&self, duration: Duration) -> (r: Option<SystemTime>)
        ensures
            match r {
                Some(t) => self@ + duration@ <= u64::MAX && t@ == self@ + duration@,
                None => self@ + duration@ > u64::MAX,
            },
    {
        match nanos_as_ticks(&duration) {
            Some(d) => match self.0.checked_add(d) {
                Some(t) => Some(SystemTime(t)),
                None => None,
            },
            None => None,
        }
    }

    /// The point `duration` before this one, `None` where it lies before the
    /// epoch.
    pub fn checked_sub(&self, duration: Duration) -> (r: Option<SystemTime>)
        ensures
            match r {
                Some(t) => duration@ <= self@ && t@ == self@ - duration@,
                None => duration@ > self@,
            },
    {
        match nanos_as_ticks(&duration) {
            Some(d) => match self.0.checked_sub(d) {
                Some(t) => Some(SystemTime(t)),
                None => None,
            },
            None => None,
        }
    }
}

/// An instant is fixed by its tick.
pub proof fn law_instant_determined_by_tick(a: Instant, b: Instant)
    ensures
        a@ == b@ <==> a == b,
{
}

/// A wall-clock point is fixed by its tick.
pub proof fn law_system_time_determined_by_tick(a: SystemTime, b: SystemTime)
    ensures
        a@ == b@ <==> a == b,
{
}

/// Adding a span to an instant and taking it away again gives back the same
/// instant: where `i.checked_add(d)` is `Some(j)`, `j.checked_sub(d)` is
/// `Some(i)`.
pub proof fn law_instant_add_then_sub(i: Instant, d: Duration, j: Instant, k: Instant)
    requires
        i@ + d@ <= u64::MAX,
        j@ == i@ + d@,
        k@ == j@ - d@,
    ensures
        d@ <= j@,
        k == i,
{
}

/// The time from an instant to the instant a span after it is that span:
/// where `i.checked_add(d)` is `Some(j)`, `j.duration_since(i)` and
/// `j.checked_duration_since(i)` measure `d`, and `i.duration_since(j)` is zero.
pub proof fn law_instant_add_then_measure(i: Instant, d: Duration, j: Instant)
    requires
        i@ + d@ <= u64::MAX,
        j@ == i@ + d@,
    ensures
        saturating_diff(j@, i@) == d@,
        j@ >= i@,
        saturating_diff(i@, j@) == 0,
{
}

/// Adding a span to a wall-clock point and taking it away again gives back
/// the same point, and the time between the two is that span.
pub proof fn law_system_time_add_then_sub(t: SystemTime, d: Duration, u: SystemTime, v: SystemTime, r: Result<Duration, SystemTimeError>)
    requires
        t@ + d@ <= u64::MAX,
        u@ == t@ + d@,
        v@ == u@ - d@,
        measured_between(u@, t@, r),
    ensures
        d@ <= u@,
        v == t,
        r matches Ok(m) && m@ == d@,
{
}

/// Measuring between two different wall-clock points either way round: one
/// way succeeds, the other fails, and the error of the failing one holds the
/// time that the succeeding one measures.
pub proof fn law_system_time_measure_both_ways(
    a: SystemTime,
    b: SystemTime,
    ab: Result<Duration, SystemTimeError>,
    ba: Result<Duration, SystemTimeError>,
)
    requires
        a@ != b@,
        measured_between(a@, b@, ab),
        measured_between(b@, a@, ba),
    ensures
        ab is Ok <==> ba is Err,
        ab matches Ok(d) ==> (ba matches Err(e) && e@ == d@),
        ba matches Ok(d) ==> (ab matches Err(e) && e@ == d@),
{
}

/// Successive readings of the monotonic clock increase by one tick, until the
/// counter wraps around: where `Instant::now` gives `a` and leaves the counter
/// at `after`, the next reading gives an instant one tick later.
pub proof fn law_now_increases(before: TickCounter, a: Instant, after: TickCounter, b: Instant)
    requires
        a@ == before@,
        after@ == (before@ + 1) % 0x1_0000_0000_0000_0000,
        b@ == after@,
        before@ < u64::MAX,
    ensures
        b@ == a@ + 1,
        a@ < b@,
{
}

/// The `+` and `-` operators on instants agree with `checked_add` and
/// `checked_sub` wherever those give a result, and `-` between instants
/// agrees with `duration_since`.
pub proof fn law_instant_operators(i: Instant, j: Instant, d: Duration)
    ensures
        i@ + d@ <= u64::MAX ==> AddSpec::add_spec(i, d)@ == i@ + d@,
        d@ <= i@ ==> SubSpec::sub_spec(i, d)@ == i@ - d@,
        SubSpec::sub_spec(i, j)@ == saturating_diff(i@, j@),
{
    if i@ >= j@ {
        assert((i@ - j@) as nat == (i@ - j@) as nat / 1_000_000_000 * 1_000_000_000 + (i@ - j@) as nat % 1_000_000_000) by (nonlinear_arith);
        assert((i@ - j@) as nat / 1_000_000_000 <= u64::MAX) by (nonlinear_arith) requires (i@ - j@) as nat <= u64::MAX;
    }
}

/// The `+` and `-` operators on wall-clock points agree with `checked_add`
/// and `checked_sub` wherever those give a result.
pub proof fn law_system_time_operators(t: SystemTime, d: Duration)
    ensures
        t@ + d@ <= u64::MAX ==> AddSpec::add_spec(t, d)@ == t@ + d@,
        d@ <= t@ ==> SubSpec::sub_spec(t, d)@ == t@ - d@,
{
}

/// Every tick that an instant, a wall-clock point or the counter holds fits
/// in a `u64`.
pub proof fn law_ticks_fit(i: Instant, t: SystemTime, c: TickCounter)
    ensures
        i@ <= u64::MAX,
        t@ <= u64::MAX,
        c@ <= u64::MAX,
{
}

/// Taking a span from an instant and adding it back gives the instant again,
/// and the time between the two is that span: where `i.checked_sub(d)` is
/// `Some(b)`, `b.checked_add(d)` is `Some(i)` and `i.checked_duration_since(b)`
/// measures `d`.
pub proof fn law_instant_sub_then_add(i: Instant, d: Duration, b: Instant, k: Instant)
    requires
        d@ <= i@,
        b@ == i@ - d@,
        k@ == b@ + d@,
    ensures
        b@ + d@ <= u64::MAX,
        k == i,
        b@ <= i@,
        i@ - b@ == d@,
{
}

/// Measuring from an earlier instant and adding the span to it gives the
/// instant again: where `i.checked_duration_since(earlier)` is `Some(d)`,
/// `earlier.checked_add(d)` is `Some(i)`.
pub proof fn law_instant_measure_then_add(i: Instant, earlier: Instant, d: Duration, k: Instant)
    requires
        earlier@ <= i@,
        d@ == i@ - earlier@,
        k@ == earlier@ + d@,
    ensures
        earlier@ + d@ <= u64::MAX,
        k == i,
{
}

/// Measuring between wall-clock points and adding the span back: where
/// `t.duration_since(earlier)` is `Ok(d)`, `earlier + d` is `t`; where it is
/// `Err(e)`, the span in `e` is not zero and `t` plus it is `earlier`.
pub proof fn law_system_time_measure_then_add(t: SystemTime, earlier: SystemTime, r: Result<Duration, SystemTimeError>)
    requires
        measured_between(t@, earlier@, r),
    ensures
        r is Ok <==> earlier@ <= t@,
        r matches Ok(d) ==> earlier@ + d@ <= u64::MAX && AddSpec::add_spec(earlier, d) == t,
        r matches Err(e) ==> e@ > 0 && t@ + e@ <= u64::MAX && e.span()@ == e@ && AddSpec::add_spec(t, e.span()) == earlier,
{
}

/// Taking a span from a wall-clock point and adding it back gives the point
/// again, and the time between the two is that span: where
/// `t.checked_sub(d)` is `Some(u)`, `u.checked_add(d)` is `Some(t)` and
/// `t.duration_since(u)` is `Ok` of that span.
pub proof fn law_system_time_sub_then_add(t: SystemTime, d: Duration, u: SystemTime, k: SystemTime, r: Result<Duration, SystemTimeError>)
    requires
        d@ <= t@,
        u@ == t@ - d@,
        k@ == u@ + d@,
        measured_between(t@, u@, r),
    ensures
        u@ + d@ <= u64::MAX,
        k == t,
        r matches Ok(m) && m@ == d@,
{
}

/// Adding two spans to a wall-clock point one after the other is adding
/// their sum: `(t + a) + b == t + (a + b)` wherever the point stays in range.
pub proof fn law_system_time_add_associative(t: SystemTime, a: Duration, b: Duration)
    requires
        t@ + a@ + b@ <= u64::MAX,
    ensures
        AddSpec::add_spec(a, b)@ == a@ + b@,
        AddSpec::add_spec(AddSpec::add_spec(t, a), b) == AddSpec::add_spec(t, AddSpec::add_spec(a, b)),
{
    lemma_duration_of_view(a@ + b@);
}

impl core::ops::Add<Duration> for Duration {
    type Output = Duration;

    /// The sum of two spans; it must not be beyond the largest span.
    fn add(self, rhs: Duration) -> (r: Duration) {
        match self.checked_add(rhs) {
            Some(sum) => {
                proof {
                    use_type_invariant(sum);
                    lemma_duration_unique(sum, self@ + rhs@);
                }
                sum
            },
            None => self,
        }
    }
}

impl vstd::std_specs::ops::AddSpecImpl<Duration> for Duration {
    open spec fn obeys_add_spec() -> bool {
        true
    }

    open spec fn add_req(self, rhs: Duration) -> bool {
        self@ + rhs@ <= max_duration_nanos()
    }

    open spec fn add_spec(self, rhs: Duration) -> Duration {
        duration_of(self@ + rhs@)
    }
}

impl core::ops::Add<Duration> for Instant {
    type Output = Instant;

    /// The instant `rhs` after this one; it must not lie beyond the last tick.
    fn add(self, rhs: Duration) -> (r: Instant) {
        let n = rhs.as_nanos();
        Instant(self.0 + n as u64)
    }
}

impl core::ops::AddAssign<Duration> for Instant {
    /// Moves this instant `rhs` later; it must not lie beyond the last tick.
    fn add_assign(&mut self, rhs: Duration)
        requires
            old(self)@ + rhs@ <= u64::MAX,
        ensures
            final(self)@ == old(self)@ + rhs@,
    {
        *self = *self + rhs;
    }
}

impl vstd::std_specs::ops::AddSpecImpl<Duration> for Instant {
    open spec fn obeys_add_spec() -> bool {
        true
    }

    open spec fn add_req(self, rhs: Duration) -> bool {
        self@ + rhs@ <= u64::MAX
    }

    open spec fn add_spec(self, rhs: Duration) -> Instant {
        instant_at(self@ + rhs@)
    }
}

impl core::ops::Sub<Duration> for Instant {
    type Output = Instant;

    /// The instant `rhs` before this one; it must not lie before the first tick.
    fn sub(self, rhs: Duration) -> (r: Instant) {
        let n = rhs.as_nanos();
        Instant(self.0 - n as u64)
    }
}

impl core::ops::SubAssign<Duration> for Instant {
    /// Moves this instant `rhs` earlier; it must not lie before the first tick.
    fn sub_assign(&mut self, rhs: Duration)
        requires
            rhs@ <= old(self)@,
        ensures
            final(self)@ == old(self)@ - rhs@,
    {
        *self = *self - rhs;
    }
}

impl vstd::std_specs::ops::SubSpecImpl<Duration> for Instant {
    open spec fn obeys_sub_spec() -> bool {
        true
    }

    open spec fn sub_req(self, rhs: Duration) -> bool {
        rhs@ <= self@
    }

    open spec fn sub_spec(self, rhs: Duration) -> Instant {
        instant_at((self@ - rhs@) as nat)
    }
}

impl core::ops::Sub<Instant> for Instant {
    type Output = Duration;

    /// The time from `rhs` to this instant, zero where `rhs` is later.
    fn sub(self, rhs: Instant) -> (r: Duration) {
        let d = self.duration_since(rhs);
        proof {
            use_type_invariant(d);
            lemma_duration_unique(d, saturating_diff(self@, rhs@));
        }
        d
    }
}

impl vstd::std_specs::ops::SubSpecImpl<Instant> for Instant {
    open spec fn obeys_sub_spec() -> bool {
        true
    }

    open spec fn sub_req(self, rhs: Instant) -> bool {
        true
    }

    open spec fn sub_spec(self, rhs: Instant) -> Duration {
        duration_of(saturating_diff(self@, rhs@))
    }
}

impl core::ops::Add<Duration> for SystemTime {
    type Output = SystemTime;

    /// The point `rhs` after this one; it must not lie beyond the last tick.
    fn add(self, rhs: Duration) -> (r: SystemTime) {
        let n = rhs.as_nanos();
        SystemTime(self.0 + n as u64)
    }
}

impl core::ops::AddAssign<Duration> for SystemTime {
    /// Moves this point `rhs` later; it must not lie beyond the last tick.
    fn add_assign(&mut self, rhs: Duration)
        requires
            old(self)@ + rhs@ <= u64::MAX,
        ensures
            final(self)@ == old(self)@ + rhs@,
    {
        *self = *self + rhs;
    }
}

impl vstd::std_specs::ops::AddSpecImpl<Duration> for SystemTime {
    open spec fn obeys_add_spec() -> bool {
        true
    }

    open spec fn add_req(self, rhs: Duration) -> bool {
        self@ + rhs@ <= u64::MAX
    }

    open spec fn add_spec(self, rhs: Duration) -> SystemTime {
        system_time_at(self@ + rhs@)
    }
}

impl core::ops::Sub<Duration> for SystemTime {
    type Output = SystemTime;

    /// The point `rhs` before this one; it must not lie before the epoch.
    fn sub(self, rhs: Duration) -> (r: SystemTime) {
        let n = rhs.as_nanos();
        SystemTime(self.0 - n as u64)
    }
}

impl core::ops::SubAssign<Duration> for SystemTime {
    /// Moves this point `rhs` earlier; it must not lie before the epoch.
    fn sub_assign(&mut self, rhs: Duration)
        requires
            rhs@ <= old(self)@,
        ensures
            final(self)@ == old(self)@ - rhs@,
    {
        *self = *self - rhs;
    }
}

impl vstd::std_specs::ops::SubSpecImpl<Duration> for SystemTime {
    open spec fn obeys_sub_spec() -> bool {
        true
    }

    open spec fn sub_req(self, rhs: Duration) -> bool {
        rhs@ <= self@
    }

    open spec fn sub_spec(self, rhs: Duration) -> SystemTime {
        system_time_at((self@ - rhs@) as nat)
    }
}

} // verus!
