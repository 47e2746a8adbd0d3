//! Signed spans of time.
use vstd::prelude::*;

verus! {

/// Nanoseconds in one millisecond.
pub const NANOS_PER_MILLI: i64 = 1_000_000;

/// Nanoseconds in one second.
pub const NANOS_PER_SEC: i64 = 1_000_000_000;

/// Nanoseconds in one minute.
pub const NANOS_PER_MINUTE: i64 = 60_000_000_000;

/// Nanoseconds in one hour.
pub const NANOS_PER_HOUR: i64 = 3_600_000_000_000;

/// Whether `x` fits in an `i64`.
pub open spec fn fits_i64(x: int) -> bool {
    i64::MIN <= x <= i64::MAX
}

/// Integer quotient truncated toward zero, as Rust's `/` on signed integers.
pub open spec fn div_trunc(a: int, b: int) -> int {
    if a >= 0 {
        a / b
    } else {
        -((-a) / b)
    }
}

/// A truncated quotient of two `i64` values fits in an `i64`, but for `i64::MIN / -1`.
pub proof fn lemma_div_trunc_fits(a: int, b: int)
    requires
        fits_i64(a),
        b != 0,
        !(a == i64::MIN && b == -1),
    ensures
        fits_i64(div_trunc(a, b)),
{
    if a >= 0 {
        if b > 0 {
            assert(0 <= a / b <= a) by (nonlinear_arith)
                requires
                    a >= 0,
                    b > 0,
            ;
        } else {
            assert(-a <= a / b <= 0) by (nonlinear_arith)
                requires
                    a >= 0,
                    b < 0,
            ;
        }
    } else {
        if b > 0 {
            assert(0 <= (-a) / b <= -a) by (nonlinear_arith)
                requires
                    -a > 0,
                    b > 0,
            ;
        } else if b == -1 {
            assert((-a) / b == a);
        } else {
            assert(a / 2 <= (-a) / b <= 0) by (nonlinear_arith)
                requires
                    -a > 0,
                    b <= -2,
            ;
        }
    }
}

/// Remainder left by `div_trunc`; it takes the sign of `a`, as Rust's `%`.
pub open spec fn rem_trunc(a: int, b: int) -> int {
    if a >= 0 {
        a % b
    } else {
        -((-a) % b)
    }
}

/// A signed span of time, counted in nanoseconds.
#[derive(Clone, Copy, Debug, PartialEq, Eq, Structural, PartialOrd, Ord, Hash)]
pub struct TimeDelta(i64);

impl View for TimeDelta {
    type V = int;

    /// The span as a number of nanoseconds.
    closed spec fn view(&self) -> int {
        self.0 as int
    }
}

impl TimeDelta {
    /// Every span fits in an `i64` of nanoseconds.
    pub proof fn lemma_view_bounds(d: TimeDelta)
        ensures
            fits_i64(d@),
    {
    }

    /// The empty span.
    pub fn zero() -> (r: TimeDelta)
        ensures
            r@ == 0,
    {
        TimeDelta(0)
    }

    /// A span of `n` hours; the caller keeps the product within `i64`.
    pub fn from_hours(n: i64) -> (r: TimeDelta)
        requires
            fits_i64(n * NANOS_PER_HOUR),
        ensures
            r@ == n * NANOS_PER_HOUR,
    {
        TimeDelta(n * NANOS_PER_HOUR)
    }

    /// A span of `n` minutes; the caller keeps the product within `i64`.
    pub fn from_minutes(n: i64) -> (r: TimeDelta)
        requires
            fits_i64(n * NANOS_PER_MINUTE),
        ensures
            r@ == n * NANOS_PER_MINUTE,
    {
        TimeDelta(n * NANOS_PER_MINUTE)
    }

    /// A span of `n` seconds; the caller keeps the product within `i64`.
    pub fn from_seconds(n: i64) -> (r: TimeDelta)
        requires
            fits_i64(n * NANOS_PER_SEC),
        ensures
            r@ == n * NANOS_PER_SEC,
    {
        TimeDelta(n * NANOS_PER_SEC)
    }

    /// A span of `n` milliseconds; the caller keeps the product within `i64`.
    pub fn from_milliseconds(n: i64) -> (r: TimeDelta)
        requires
            fits_i64(n * NANOS_PER_MILLI),
        ensures
            r@ == n * NANOS_PER_MILLI,
    {
        TimeDelta(n * NANOS_PER_MILLI)
    }

    /// A span of `n` nanoseconds.
    pub fn from_nanoseconds(n: i64) -> (r: TimeDelta)
        ensures
            r@ == n,
    {
        TimeDelta(n)
    }

    /// The span as whole milliseconds, truncated toward zero.
    pub fn as_milliseconds(self) -> (r: i64)
        ensures
            r == div_trunc(self@, NANOS_PER_MILLI as int),
    {
        self.0 / NANOS_PER_MILLI
    }

    /// The span in nanoseconds.
    pub fn as_nanoseconds(self) -> (r: i64)
        ensures
            r == self@,
    {
        self.0
    }

    /// Whether the span is empty.
    pub fn is_zero(self) -> (r: bool)
        ensures
            r == (self@ == 0),
    {
        self.0 == 0
    }

    /// Whether the span points forward in time.
    pub fn is_positive(self) -> (r: bool)
        ensures
            r == (self@ > 0),
    {
        self.0 > 0
    }

    /// Whether the span points backward in time.
    pub fn is_negative(self) -> (r: bool)
        ensures
            r == (self@ < 0),
    {
        self.0 < 0
    }
}

impl core::ops::Add<TimeDelta> for TimeDelta {
    type Output = TimeDelta;

    /// The sum of two spans; the caller keeps it within `i64`.
    fn add(self, rhs: TimeDelta) -> (r: TimeDelta)
        ensures
            r@ == self@ + rhs@,
    {
        TimeDelta(self.0 + rhs.0)
    }
}

impl vstd::std_specs::ops::AddSpecImpl<TimeDelta> for TimeDelta {
    // the operator states its result in its own `ensures`
    open spec fn obeys_add_spec() -> bool {
        false
    }

    open spec fn add_req(self, rhs: TimeDelta) -> bool {
        fits_i64(self@ + rhs@)
    }

    open spec fn add_spec(self, rhs: TimeDelta) -> TimeDelta {
        arbitrary()
    }
}

impl core::ops::Sub<TimeDelta> for TimeDelta {
    type Output = TimeDelta;

    /// The difference of two spans; the caller keeps it within `i64`.
    fn sub(self, rhs: TimeDelta) -> (r: TimeDelta)
        ensures
            r@ == self@ - rhs@,
    {
        TimeDelta(self.0 - rhs.0)
    }
}

impl vstd::std_specs::ops::SubSpecImpl<TimeDelta> for TimeDelta {
    // the operator states its result in its own `ensures`
    open spec fn obeys_sub_spec() -> bool {
        false
    }

    open spec fn sub_req(self, rhs: TimeDelta) -> bool {
        fits_i64(self@ - rhs@)
    }

    open spec fn sub_spec(self, rhs: TimeDelta) -> TimeDelta {
        arbitrary()
    }
}

impl core::ops::Mul<i64> for TimeDelta {
    type Output = TimeDelta;

    /// The span `rhs` times as long; the caller keeps it within `i64`.
    fn mul(self, rhs: i64) -> (r: TimeDelta)
        ensures
            r@ == self@ * rhs,
    {
        TimeDelta(self.0 * rhs)
    }
}

impl vstd::std_specs::ops::MulSpecImpl<i64> for TimeDelta {
    // the operator states its result in its own `ensures`
    open spec fn obeys_mul_spec() -> bool {
        false
    }

    open spec fn mul_req(self, rhs: i64) -> bool {
        fits_i64(self@ * rhs)
    }

    open spec fn mul_spec(self, rhs: i64) -> TimeDelta {
        arbitrary()
    }
}

impl core::ops::Div<i64> for TimeDelta {
    type Output = TimeDelta;

    /// The span shortened by the factor `rhs`, truncated toward zero.
    fn div(self, rhs: i64) -> (r: TimeDelta)
        ensures
            r@ == div_trunc(self@, rhs as int),
    {
        proof {
            lemma_div_trunc_fits(self@, rhs as int);
        }
        TimeDelta(self.0 / rhs)
    }
}

impl vstd::std_specs::ops::DivSpecImpl<i64> for TimeDelta {
    // the operator states its result in its own `ensures`
    open spec fn obeys_div_spec() -> bool {
        false
    }

    open spec fn div_req(self, rhs: i64) -> bool {
        rhs != 0 && !(self@ == i64::MIN && rhs == -1)
    }

    open spec fn div_spec(self, rhs: i64) -> TimeDelta {
        arbitrary()
    }
}

impl core::ops::Div<TimeDelta> for TimeDelta {
    type Output = i64;

    /// How many times `rhs` fits into the span, truncated toward zero.
    fn div(self, rhs: TimeDelta) -> (r: i64)
        ensures
            r == div_trunc(self@, rhs@),
    {
        proof {
            lemma_div_trunc_fits(self@, rhs@);
        }
        self.0 / rhs.0
    }
}

impl vstd::std_specs::ops::DivSpecImpl<TimeDelta> for TimeDelta {
    // the operator states its result in its own `ensures`
    open spec fn obeys_div_spec() -> bool {
        false
    }

    open spec fn div_req(self, rhs: TimeDelta) -> bool {
        rhs@ != 0 && !(self@ == i64::MIN && rhs@ == -1)
    }

    open spec fn div_spec(self, rhs: TimeDelta) -> i64 {
        arbitrary()
    }
}

impl core::ops::Rem<TimeDelta> for TimeDelta {
    type Output = TimeDelta;

    /// What is left of the span after taking out whole multiples of `rhs`.
    fn rem(self, rhs: TimeDelta) -> (r: TimeDelta)
        ensures
            r@ == rem_trunc(self@, rhs@),
    {
        proof {
            lemma_div_trunc_fits(self@, rhs@);
        }
        TimeDelta(self.0 % rhs.0)
    }
}

impl vstd::std_specs::ops::RemSpecImpl<TimeDelta> for TimeDelta {
    // the operator states its result in its own `ensures`
    open spec fn obeys_rem_spec() -> bool {
        false
    }

    open spec fn rem_req(self, rhs: TimeDelta) -> bool {
        rhs@ != 0 && !(self@ == i64::MIN && rhs@ == -1)
    }

    open spec fn rem_spec(self, rhs: TimeDelta) -> TimeDelta {
        arbitrary()
    }
}

} // verus!
