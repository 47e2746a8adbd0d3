//! Instants, their arithmetic, order and alignment.
use crate::delta::{fits_i64, TimeDelta, NANOS_PER_MILLI, NANOS_PER_SEC};
use core::cmp::Ordering;
use vstd::arithmetic::div_mod::{lemma_fundamental_div_mod, lemma_fundamental_div_mod_converse_mod};
use vstd::prelude::*;
use vstd::std_specs::cmp::PartialOrdSpec;

verus! {

/// `x` held to the range of a `u64`: below zero becomes zero, above the top becomes the top.
pub open spec fn clamp_u64(x: int) -> int {
    if x < 0 {
        0
    } else if x > u64::MAX {
        u64::MAX as int
    } else {
        x
    }
}

/// The latest point at or before `t` that lies a whole number of `freq` steps from
/// `anchor`: `anchor + ((t - anchor) / freq) * freq`, where `/` is Euclidean
/// division. For a positive `freq` that is the floor of the quotient; for a
/// negative one the steps are counted by its magnitude, so the point still lies
/// at or before `t`.
pub open spec fn align_point(t: int, anchor: int, freq: int) -> int {
    anchor + ((t - anchor) / freq) * freq
}

/// The result of aligning the instant `t`: the aligned point, moved up to the epoch
/// if it falls before it.
pub open spec fn aligned(t: int, anchor: int, freq: int) -> int {
    clamp_u64(align_point(t, anchor, freq))
}

/// The size of `x`, whatever its sign.
pub open spec fn magnitude(x: int) -> int {
    if x < 0 {
        -x
    } else {
        x
    }
}

/// The order of two integers.
pub open spec fn int_order(a: int, b: int) -> Ordering {
    if a < b {
        Ordering::Less
    } else if a == b {
        Ordering::Equal
    } else {
        Ordering::Greater
    }
}

/// Euclidean division by a non-zero divisor of either sign leaves a remainder
/// in `[0, |f|)` and splits `x` exactly.
proof fn lemma_euclid(x: int, f: int)
    requires
        f != 0,
    ensures
        x == f * (x / f) + x % f,
        0 <= x % f < magnitude(f),
{
    lemma_fundamental_div_mod(x, f);
    assert(0 <= x % f < magnitude(f)) by (nonlinear_arith)
        requires
            f != 0,
    ;
}

/// The remainder does not depend on the divisor's sign.
proof fn lemma_mod_abs(x: int, f: int)
    requires
        f != 0,
    ensures
        x % f == x % magnitude(f),
{
    let m = magnitude(f);
    lemma_euclid(x, f);
    lemma_euclid(x, m);
    let q1 = x / f;
    let q2 = x / m;
    let r1 = x % f;
    let r2 = x % m;
    if f < 0 {
        assert(f * q1 == m * (-q1)) by (nonlinear_arith)
            requires
                m == -f,
        ;
        assert(r1 - r2 == m * (q2 + q1)) by (nonlinear_arith)
            requires
                x == m * (-q1) + r1,
                x == m * q2 + r2,
        ;
        assert(q2 + q1 == 0) by (nonlinear_arith)
            requires
                r1 - r2 == m * (q2 + q1),
                0 <= r1 < m,
                0 <= r2 < m,
        ;
    }
}

/// The aligned point is `t` less the Euclidean remainder of `t - anchor`.
proof fn lemma_align_point_by_remainder(t: int, anchor: int, freq: int)
    requires
        freq != 0,
    ensures
        align_point(t, anchor, freq) == t - (t - anchor) % magnitude(freq),
{
    let x = t - anchor;
    lemma_euclid(x, freq);
    lemma_mod_abs(x, freq);
    assert((x / freq) * freq == freq * (x / freq)) by (nonlinear_arith);
}

/// The Euclidean remainder of `-y` by a positive `m`, from that of `y`.
proof fn lemma_mod_of_negation(y: int, m: int)
    requires
        m > 0,
    ensures
        (-y) % m == (if y % m == 0 { 0 } else { m - y % m }),
{
    lemma_euclid(y, m);
    let q = y / m;
    let r = y % m;
    if r == 0 {
        assert(-y == (-q) * m + 0) by (nonlinear_arith)
            requires
                y == m * q + r,
                r == 0,
        ;
        lemma_fundamental_div_mod_converse_mod(-y, m, -q, 0);
    } else {
        assert(-y == (-q - 1) * m + (m - r)) by (nonlinear_arith)
            requires
                y == m * q + r,
        ;
        lemma_fundamental_div_mod_converse_mod(-y, m, -q - 1, m - r);
    }
}

/// An instant in UTC, counted in nanoseconds since 1970-01-01T00:00:00Z.
#[derive(Clone, Copy, Debug, PartialEq, Eq, Structural, Ord, Hash)]
pub struct Timestamp(u64);

impl View for Timestamp {
    type V = int;

    /// The instant as nanoseconds since the epoch.
    closed spec fn view(&self) -> int {
        self.0 as int
    }
}

impl Timestamp {
    /// Every instant lies in the range of a `u64` of nanoseconds.
    pub proof fn lemma_view_bounds(t: Timestamp)
        ensures
            0 <= t@ <= u64::MAX,
    {
    }

    /// Instants compare as their counts of nanoseconds do: equal counts make equal
    /// instants, and exactly one of less, equal and greater holds, as for the counts.
    pub proof fn lemma_order_is_integer_order(a: Timestamp, b: Timestamp)
        ensures
            a@ == b@ ==> a == b,
            a.partial_cmp_spec(&b) == Some(Ordering::Less) <==> a@ < b@,
            a.partial_cmp_spec(&b) == Some(Ordering::Equal) <==> a == b,
            a.partial_cmp_spec(&b) == Some(Ordering::Greater) <==> a@ > b@,
            (a@ < b@) || (a == b) || (a@ > b@),
            !((a@ < b@) && (a == b)) && !((a@ > b@) && (a == b)) && !((a@ < b@) && (a@ > b@)),
    {
    }

    /// The span from `t2` to `t1`, added back to `t2`, gives `t1` again, wherever
    /// that span can be held at all.
    pub proof fn lemma_difference_then_add(t1: Timestamp, t2: Timestamp)
        requires
            fits_i64(t1@ - t2@),
        ensures
            clamp_u64(t2@ + (t1@ - t2@)) == t1@,
    {
    }

    /// Aligning twice gives what aligning once gave, and aligning never moves an
    /// instant later.
    pub proof fn lemma_align_idempotent(t: Timestamp, anchor: Timestamp, freq: TimeDelta)
        requires
            freq@ != 0,
        ensures
            aligned(aligned(t@, anchor@, freq@), anchor@, freq@) == aligned(t@, anchor@, freq@),
            aligned(t@, anchor@, freq@) <= t@,
    {
        let f = freq@;
        let a = anchor@;
        let m = magnitude(f);
        let p = align_point(t@, a, f);
        lemma_align_point_by_remainder(t@, a, f);
        lemma_euclid(t@ - a, m);
        if p >= 0 {
            let q = (t@ - a) / m;
            assert(p - a == q * m + 0) by (nonlinear_arith)
                requires
                    t@ - a == m * q + (t@ - a) % m,
                    p == t@ - (t@ - a) % m,
            ;
            lemma_fundamental_div_mod_converse_mod(p - a, m, q, 0);
            lemma_align_point_by_remainder(p, a, f);
        } else {
            lemma_align_point_by_remainder(0, a, f);
            lemma_euclid(0 - a, m);
        }
    }

    /// Two instants in the same `freq`-wide bucket counted from `anchor` align to
    /// the same instant: the bucket of `t1` runs from its aligned point for `|freq|`
    /// nanoseconds.
    pub proof fn lemma_align_same_bucket(
        t1: Timestamp,
        t2: Timestamp,
        anchor: Timestamp,
        freq: TimeDelta,
    )
        requires
            freq@ != 0,
            align_point(t1@, anchor@, freq@) <= t2@ < align_point(t1@, anchor@, freq@)
                + magnitude(freq@),
        ensures
            align_point(t2@, anchor@, freq@) == align_point(t1@, anchor@, freq@),
            aligned(t2@, anchor@, freq@) == aligned(t1@, anchor@, freq@),
    {
        let f = freq@;
        let a = anchor@;
        let m = magnitude(f);
        let p = align_point(t1@, a, f);
        lemma_align_point_by_remainder(t1@, a, f);
        lemma_align_point_by_remainder(t2@, a, f);
        lemma_euclid(t1@ - a, m);
        let q = (t1@ - a) / m;
        assert(t2@ - a == q * m + (t2@ - p)) by (nonlinear_arith)
            requires
                t1@ - a == m * q + (t1@ - a) % m,
                p == t1@ - (t1@ - a) % m,
        ;
        lemma_fundamental_div_mod_converse_mod(t2@ - a, m, q, t2@ - p);
    }

    /// The epoch, 1970-01-01T00:00:00Z.
    pub fn zero() -> (r: Timestamp)
        ensures
            r@ == 0,
    {
        Timestamp(0)
    }

    /// The instant `n` milliseconds after the epoch; past the last instant it stays there.
    pub fn from_milliseconds(n: u64) -> (r: Timestamp)
        ensures
            r@ == clamp_u64(n * NANOS_PER_MILLI),
    {
        Timestamp(saturating_scale(n, NANOS_PER_MILLI as u64))
    }

    /// The instant `n` seconds after the epoch; past the last instant it stays there.
    pub fn from_seconds(n: u64) -> (r: Timestamp)
        ensures
            r@ == clamp_u64(n * NANOS_PER_SEC),
    {
        Timestamp(saturating_scale(n, NANOS_PER_SEC as u64))
    }

    /// The instant `n` nanoseconds after the epoch.
    pub fn from_nanoseconds(n: u64) -> (r: Timestamp)
        ensures
            r@ == n,
    {
        Timestamp(n)
    }

    /// Whole milliseconds since the epoch, rounded down.
    pub fn as_milliseconds(self) -> (r: u64)
        ensures
            r == self@ / NANOS_PER_MILLI as int,
    {
        self.0 / (NANOS_PER_MILLI as u64)
    }

    /// Nanoseconds since the epoch.
    pub fn as_nanoseconds(self) -> (r: u64)
        ensures
            r == self@,
    {
        self.0
    }

    /// The start of the `freq`-wide bucket that holds this instant, buckets
    /// being counted from the epoch.
    pub fn align_to(self, freq: TimeDelta) -> (r: Timestamp)
        requires
            freq@ != 0,
        ensures
            r@ == aligned(self@, 0, freq@),
    {
        self.align_to_anchored(Timestamp::zero(), freq)
    }

    /// The start of the `freq`-wide bucket that holds this instant, buckets
    /// being counted from `anchor`, before or after it; a start before the epoch
    /// becomes the epoch.
    pub fn align_to_anchored(self, anchor: Timestamp, freq: TimeDelta) -> (r: Timestamp)
        requires
            freq@ != 0,
        ensures
            r@ == aligned(self@, anchor@, freq@),
    {
        let f: i64 = freq.as_nanoseconds();
        proof {
            TimeDelta::lemma_view_bounds(freq);
        }
        // the magnitude of the step, computed without negating i64::MIN
        let m: u64 = if f > 0 {
            f as u64
        } else {
            ((-(f + 1)) as u64) + 1
        };
        assert(m == magnitude(freq@));
        // the Euclidean remainder of (self - anchor) by m
        let rem: u64 = if self.0 >= anchor.0 {
            (self.0 - anchor.0) % m
        } else {
            let back: u64 = (anchor.0 - self.0) % m;
            proof {
                lemma_mod_of_negation(anchor@ - self@, m as int);
            }
            if back == 0 {
                0
            } else {
                m - back
            }
        };
        proof {
            lemma_align_point_by_remainder(self@, anchor@, freq@);
        }
        if self.0 >= rem {
            Timestamp(self.0 - rem)
        } else {
            Timestamp(0)
        }
    }

    /// Whether this is the epoch.
    pub fn is_zero(self) -> (r: bool)
        ensures
            r == (self@ == 0),
    {
        self.0 == 0
    }
}

impl PartialOrd for Timestamp {
    /// Instants are ordered as their counts of nanoseconds.
    fn partial_cmp(&self, other: &Timestamp) -> (r: Option<Ordering>)
        ensures
            r == Some(int_order(self@, other@)),
    {
        if self.0 < other.0 {
            Some(Ordering::Less)
        } else if self.0 == other.0 {
            Some(Ordering::Equal)
        } else {
            Some(Ordering::Greater)
        }
    }
}

impl vstd::std_specs::cmp::PartialOrdSpecImpl for Timestamp {
    open spec fn obeys_partial_cmp_spec() -> bool {
        true
    }

    open spec fn partial_cmp_spec(&self, other: &Timestamp) -> Option<Ordering> {
        Some(int_order(self@, other@))
    }
}

/// `t` moved forward by `m` nanoseconds, or backward when `forward` is false,
/// held to the range of a `u64`.
fn shift(t: u64, forward: bool, m: u64) -> (r: u64)
    ensures
        r == clamp_u64(if forward { t + m } else { t - m }),
{
    if forward {
        if t <= u64::MAX - m {
            t + m
        } else {
            u64::MAX
        }
    } else {
        if t >= m {
            t - m
        } else {
            0
        }
    }
}

/// `n * k`, or the largest `u64` where the product would not fit.
fn saturating_scale(n: u64, k: u64) -> (r: u64)
    requires
        k > 0,
    ensures
        r == clamp_u64(n * k),
{
    if n <= u64::MAX / k {
        assert(n * k <= (u64::MAX / k) * k <= u64::MAX) by (nonlinear_arith)
            requires
                n <= u64::MAX / k,
                k > 0,
        ;
        n * k
    } else {
        assert(n * k > u64::MAX) by (nonlinear_arith)
            requires
                n > u64::MAX / k,
                k > 0,
        ;
        u64::MAX
    }
}

/// The magnitude of a signed count, as a `u64`.
fn unsigned_magnitude(d: i64) -> (r: u64)
    ensures
        r == magnitude(d as int),
{
    if d >= 0 {
        d as u64
    } else {
        ((-(d + 1)) as u64) + 1
    }
}

impl core::ops::Add<TimeDelta> for Timestamp {
    type Output = Timestamp;

    /// The instant `rhs` later; a result before the epoch becomes the epoch, one
    /// past the last instant becomes the last instant.
    fn add(self, rhs: TimeDelta) -> (r: Timestamp)
        ensures
            r@ == clamp_u64(self@ + rhs@),
    {
        let d: i64 = rhs.as_nanoseconds();
        Timestamp(shift(self.0, d >= 0, unsigned_magnitude(d)))
    }
}

impl vstd::std_specs::ops::AddSpecImpl<TimeDelta> for Timestamp {
    // the operator states its result in its own `ensures`
    open spec fn obeys_add_spec() -> bool {
        false
    }

    open spec fn add_req(self, rhs: TimeDelta) -> bool {
        true
    }

    open spec fn add_spec(self, rhs: TimeDelta) -> Timestamp {
        arbitrary()
    }
}

impl core::ops::Sub<TimeDelta> for Timestamp {
    type Output = Timestamp;

    /// The instant `rhs` earlier; a result before the epoch becomes the epoch, one
    /// past the last instant becomes the last instant.
    fn sub(self, rhs: TimeDelta) -> (r: Timestamp)
        ensures
            r@ == clamp_u64(self@ - rhs@),
    {
        let d: i64 = rhs.as_nanoseconds();
        Timestamp(shift(self.0, d < 0, unsigned_magnitude(d)))
    }
}

impl vstd::std_specs::ops::SubSpecImpl<TimeDelta> for Timestamp {
    // the operator states its result in its own `ensures`
    open spec fn obeys_sub_spec() -> bool {
        false
    }

    open spec fn sub_req(self, rhs: TimeDelta) -> bool {
        true
    }

    open spec fn sub_spec(self, rhs: TimeDelta) -> Timestamp {
        arbitrary()
    }
}

impl core::ops::Sub<Timestamp> for Timestamp {
    type Output = TimeDelta;

    /// The signed span from `rhs` to this instant; the caller keeps it within `i64`.
    fn sub(self, rhs: Timestamp) -> (r: TimeDelta)
        ensures
            r@ == self@ - rhs@,
    {
        if self.0 >= rhs.0 {
            TimeDelta::from_nanoseconds((self.0 - rhs.0) as i64)
        } else {
            let back: u64 = rhs.0 - self.0;
            TimeDelta::from_nanoseconds(-((back - 1) as i64) - 1)
        }
    }
}

impl vstd::std_specs::ops::SubSpecImpl<Timestamp> for Timestamp {
    // the operator states its result in its own `ensures`
    open spec fn obeys_sub_spec() -> bool {
        false
    }

    open spec fn sub_req(self, rhs: Timestamp) -> bool {
        fits_i64(self@ - rhs@)
    }

    open spec fn sub_spec(self, rhs: Timestamp) -> TimeDelta {
        arbitrary()
    }
}

impl core::ops::AddAssign<TimeDelta> for Timestamp {
    /// Moves this instant `rhs` later, as `+` does.
    fn add_assign(&mut self, rhs: TimeDelta)
        ensures
            final(self)@ == clamp_u64(old(self)@ + rhs@),
    {
        *self = *self + rhs;
    }
}

impl core::ops::SubAssign<TimeDelta> for Timestamp {
    /// Moves this instant `rhs` earlier, as `-` does.
    fn sub_assign(&mut self, rhs: TimeDelta)
        ensures
            final(self)@ == clamp_u64(old(self)@ - rhs@),
    {
        *self = *self - rhs;
    }
}

} // verus!
