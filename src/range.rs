//! Stepped sequences of instants.
use crate::delta::TimeDelta;
use crate::timestamp::{clamp_u64, Timestamp};
use vstd::arithmetic::div_mod::lemma_fundamental_div_mod;
use vstd::prelude::*;

verus! {

/// The state of a stepped range: cursor, end, step and whether the end is included.
pub type RangeState = (int, int, int, bool);

/// Whether a range in state `s` has nothing more to give.
pub open spec fn exhausted(s: RangeState) -> bool {
    if s.3 {
        s.0 > s.1
    } else {
        s.0 >= s.1
    }
}

/// The state after one element has been taken from a range in state `s`.
pub open spec fn advanced(s: RangeState) -> RangeState {
    (clamp_u64(s.0 + s.2), s.1, s.2, s.3)
}

/// The first elements, at most `n` of them, that a range in state `s` gives.
pub open spec fn pulls(s: RangeState, n: nat) -> Seq<int>
    decreases n,
{
    if n == 0 || exhausted(s) {
        Seq::empty()
    } else {
        seq![s.0].add(pulls(advanced(s), (n - 1) as nat))
    }
}

/// Every element that a range without its end gives lies before the end.
proof fn lemma_open_pulls_before_end(s: RangeState, n: nat)
    requires
        !s.3,
    ensures
        forall|i: int| 0 <= i < pulls(s, n).len() ==> #[trigger] pulls(s, n)[i] < s.1,
    decreases n,
{
    if n > 0 && !exhausted(s) {
        lemma_open_pulls_before_end(advanced(s), (n - 1) as nat);
        assert forall|i: int| 0 <= i < pulls(s, n).len() implies #[trigger] pulls(s, n)[i] < s.1 by {
            if i > 0 {
                assert(pulls(s, n)[i] == pulls(advanced(s), (n - 1) as nat)[i - 1]);
            }
        }
    }
}

/// A range with its end, a positive step and `k` whole steps from cursor to end
/// gives the `k + 1` instants `c, c + d, ..., e`, and then nothing.
proof fn lemma_closed_pulls_exact(s: RangeState, k: nat, n: nat)
    requires
        s.3,
        s.2 > 0,
        0 <= s.0,
        s.1 - s.0 == k * s.2,
        s.1 + s.2 <= u64::MAX,
        n > k,
    ensures
        pulls(s, n) =~= Seq::new(k + 1, |i: int| s.0 + i * s.2),
    decreases k,
{
    let (c, e, d) = (s.0, s.1, s.2);
    assert(k * d >= 0) by (nonlinear_arith)
        requires
            d > 0,
    ;
    assert(!exhausted(s));
    assert(advanced(s).0 == c + d);
    assert(pulls(s, n) == seq![c].add(pulls(advanced(s), (n - 1) as nat)));
    if k == 0 {
        assert(e == c) by (nonlinear_arith)
            requires
                e - c == k * d,
                k == 0,
        ;
        assert(exhausted(advanced(s)));
        assert(pulls(advanced(s), (n - 1) as nat) =~= Seq::empty());
    } else {
        let k1 = (k - 1) as nat;
        assert(e - (c + d) == k1 * d) by (nonlinear_arith)
            requires
                e - c == k * d,
                k1 == k - 1,
        ;
        lemma_closed_pulls_exact(advanced(s), k1, (n - 1) as nat);
        assert forall|i: int| 0 <= i < k + 1 implies #[trigger] pulls(s, n)[i] == c + i * d by {
            let rest = pulls(advanced(s), (n - 1) as nat);
            if i > 0 {
                assert(pulls(s, n)[i] == rest[i - 1]);
                assert(rest[i - 1] == c + d + (i - 1) * d);
                assert(c + d + (i - 1) * d == c + i * d) by (nonlinear_arith);
            } else {
                assert(pulls(s, n)[0] == c);
                assert(c + 0 * d == c);
            }
        }
    }
}

/// A range that includes its end, walked forward by a step that divides the gap
/// from start to end, gives `start, start + step, ..., end` and then nothing, so
/// the end comes last: asked for `n` elements, `n` more than the number of steps,
/// it gives just those. (Where `end + step` would pass the last instant, the
/// cursor would stay on it and give the end again and again.)
pub proof fn lemma_right_closed_ends_at_end(
    start: Timestamp,
    end: Timestamp,
    step: TimeDelta,
    n: nat,
)
    requires
        step@ > 0,
        start@ <= end@,
        (end@ - start@) % step@ == 0,
        end@ + step@ <= u64::MAX,
        n > (end@ - start@) / step@,
    ensures
        ({
            let k = (end@ - start@) / step@;
            let out = pulls((start@, end@, step@, true), n);
            &&& out.len() == k + 1
            &&& out.last() == end@
            &&& forall|i: int| 0 <= i <= k ==> #[trigger] out[i] == start@ + i * step@
        }),
{
    let k = (end@ - start@) / step@;
    Timestamp::lemma_view_bounds(start);
    lemma_fundamental_div_mod(end@ - start@, step@);
    assert(k >= 0) by (nonlinear_arith)
        requires
            end@ - start@ >= 0,
            step@ > 0,
            k == (end@ - start@) / step@,
    ;
    assert(end@ - start@ == (k as nat) * step@) by (nonlinear_arith)
        requires
            end@ - start@ == step@ * k + 0,
            k >= 0,
    ;
    lemma_closed_pulls_exact((start@, end@, step@, true), k as nat, n);
}

/// A range that excludes its end never gives the end, whatever the step and
/// however many elements are asked for.
pub proof fn lemma_right_open_excludes_end(
    start: Timestamp,
    end: Timestamp,
    step: TimeDelta,
    n: nat,
)
    ensures
        !pulls((start@, end@, step@, false), n).contains(end@),
{
    lemma_open_pulls_before_end((start@, end@, step@, false), n);
}

/// The instants from a start to an end, taken a fixed step apart.
///
/// The start is always included (unless it already lies past the end); the end is
/// included or not depending on the constructor. A step that does not move the
/// cursor toward the end gives a sequence without end.
#[derive(Debug)]
pub struct TimeRange {
    cur: Timestamp,
    end: Timestamp,
    step: TimeDelta,
    right_closed: bool,
}

impl View for TimeRange {
    type V = RangeState;

    /// The cursor, the end, the step and whether the end is included.
    closed spec fn view(&self) -> RangeState {
        (self.cur@, self.end@, self.step@, self.right_closed)
    }
}

impl TimeRange {
    /// The range from `start` to `end` by `step`, `end` included.
    pub fn right_closed(start: Timestamp, end: Timestamp, step: TimeDelta) -> (r: TimeRange)
        ensures
            r@ == (start@, end@, step@, true),
    {
        TimeRange { cur: start, end, step, right_closed: true }
    }

    /// The range from `start` to `end` by `step`, `end` excluded.
    pub fn right_open(start: Timestamp, end: Timestamp, step: TimeDelta) -> (r: TimeRange)
        ensures
            r@ == (start@, end@, step@, false),
    {
        TimeRange { cur: start, end, step, right_closed: false }
    }

    /// The next instant of the range, if any: the cursor, which then moves on by the step.
    pub fn next(&mut self) -> (r: Option<Timestamp>)
        ensures
            exhausted(old(self)@) ==> r is None && final(self)@ == old(self)@,
            !exhausted(old(self)@) ==> (r matches Some(t) && t@ == old(self)@.0),
            !exhausted(old(self)@) ==> final(self)@ == advanced(old(self)@),
    {
        let done = if self.right_closed {
            self.cur > self.end
        } else {
            self.cur >= self.end
        };
        if done {
            None
        } else {
            let cur = self.cur;
            self.cur = self.cur + self.step;
            Some(cur)
        }
    }
}

} // verus!
