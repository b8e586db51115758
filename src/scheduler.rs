use crate::ratio::{divides_common_multiples, is_multiple, lemma_mod_scale, ratio_add, ratio_rem, Rational};
use vstd::prelude::*;

verus! {

/// The clock wraps around after this many seconds.
pub const WRAP_SECONDS: u64 = 60;

/// Largest numerator or denominator accepted for a tick length or a refresh interval.
pub const MAX_TERM: u64 = 67108864;

/// `next` is `(seconds + step) mod 60`, exactly.
pub open spec fn advanced(seconds: Rational, step: Rational, next: Rational) -> bool {
    let d = seconds.denom as int * step.denom as int;
    let s = seconds.numer as int * step.denom as int + step.numer as int * seconds.denom as int;
    next.numer as int * d == (s % (WRAP_SECONDS as int * d)) * next.denom as int
}

/// A tick length or refresh interval that the scheduler accepts.
pub open spec fn interval_ok(i: Rational) -> bool {
    0 < i.numer <= MAX_TERM && 0 < i.denom <= MAX_TERM
}

/// Elapsed seconds, as an exact rational number that wraps around at 60.
#[derive(Clone, Copy, Debug)]
pub struct Clock {
    pub seconds: Rational,
}

pub proof fn lemma_divisor_le(d: int, m: int)
    requires
        d > 0,
        m > 0,
        m % d == 0,
    ensures
        d <= m,
{
    vstd::arithmetic::div_mod::lemma_fundamental_div_mod(m, d);
    assert(m / d >= 1) by (nonlinear_arith)
        requires
            m == d * (m / d),
            m > 0,
            d > 0,
    ;
    assert(d <= m) by (nonlinear_arith)
        requires
            m == d * (m / d),
            m / d >= 1,
            d > 0,
    ;
}

proof fn lemma_divides_trans(a: int, b: int, c: int)
    requires
        a > 0,
        b > 0,
        b % a == 0,
        c % b == 0,
    ensures
        c % a == 0,
{
    vstd::arithmetic::div_mod::lemma_fundamental_div_mod(b, a);
    vstd::arithmetic::div_mod::lemma_fundamental_div_mod(c, b);
    let k = (c / b) * (b / a);
    assert(c == k * a) by (nonlinear_arith)
        requires
            b == a * (b / a),
            c == b * (c / b),
            k == (c / b) * (b / a),
    ;
    vstd::arithmetic::div_mod::lemma_mod_multiples_basic(k, a);
}

impl Clock {
    /// The clock at zero seconds.
    pub fn new() -> (r: Clock)
        ensures
            r.seconds.numer == 0,
            r.seconds.denom == 1,
    {
        Clock { seconds: Rational::from_integer(0) }
    }

    /// Adds `step` to the clock and reduces the result modulo 60, in exact arithmetic.
    pub fn advance(&mut self, step: Rational)
        requires
            old(self).seconds.wf(),
            step.wf(),
            old(self).seconds.numer as int * step.denom as int + step.numer as int * old(
                self,
            ).seconds.denom as int <= u64::MAX,
            WRAP_SECONDS as int * (old(self).seconds.denom as int * step.denom as int) <= u64::MAX,
        ensures
            final(self).seconds.wf(),
            final(self).seconds.below(WRAP_SECONDS as int),
            advanced(old(self).seconds, step, final(self).seconds),
            divides_common_multiples(
                old(self).seconds.denom as int,
                step.denom as int,
                final(self).seconds.denom as int,
            ),
    {
        let s = self.seconds;
        let t = ratio_add(s, step);
        let ghost d = s.denom as int * step.denom as int;
        let ghost sum = s.numer as int * step.denom as int + step.numer as int * s.denom as int;
        proof {
            assert(d > 0) by (nonlinear_arith)
                requires
                    d == s.denom as int * step.denom as int,
                    s.denom > 0,
                    step.denom > 0,
            ;
            vstd::arithmetic::div_mod::lemma_mod_multiples_basic(step.denom as int, s.denom as int);
            vstd::arithmetic::div_mod::lemma_mod_multiples_basic(s.denom as int, step.denom as int);
            assert(d % s.denom as int == 0 && d % step.denom as int == 0) by (nonlinear_arith)
                requires
                    (step.denom as int * s.denom as int) % s.denom as int == 0,
                    (s.denom as int * step.denom as int) % step.denom as int == 0,
                    d == s.denom as int * step.denom as int,
            ;
            assert(d % t.denom as int == 0);
            lemma_divisor_le(t.denom as int, d);
            assert(t.numer as int <= sum) by (nonlinear_arith)
                requires
                    t.numer as int * d == sum * t.denom as int,
                    t.denom as int <= d,
                    sum >= 0,
                    t.denom > 0,
            ;
        }
        let sixty = Rational::from_integer(WRAP_SECONDS);
        let r = ratio_rem(t, sixty);
        proof {
            let tn = t.numer as int;
            let td = t.denom as int;
            assert(tn * 1 == tn);
            assert(td * 1 == td);
            lemma_mod_scale(tn, 60 * td, d);
            lemma_mod_scale(sum, 60 * d, td);
            assert(tn * d == sum * td);
            assert((60 * td) * d == (60 * d) * td) by (nonlinear_arith);
            assert((tn % (60 * td)) * d == (sum % (60 * d)) * td);
            assert(r.numer as int * td == (tn % (td * 60)) * r.denom as int);
            assert(td * 60 == 60 * td);
            assert(r.numer as int * d == (sum % (60 * d)) * r.denom as int) by (nonlinear_arith)
                requires
                    r.numer as int * td == (tn % (60 * td)) * r.denom as int,
                    (tn % (60 * td)) * d == (sum % (60 * d)) * td,
                    td > 0,
            ;
            assert(0 <= tn % (60 * td) < 60 * td);
            assert(r.numer < 60 * r.denom) by (nonlinear_arith)
                requires
                    r.numer as int * td == (tn % (60 * td)) * r.denom as int,
                    0 <= tn % (60 * td) < 60 * td,
                    td > 0,
                    r.denom > 0,
            ;
            assert forall|m: int|
                m > 0 && m % s.denom as int == 0 && m % step.denom as int == 0 implies #[trigger] (m
                % r.denom as int) == 0 by {
                assert(m % t.denom as int == 0);
                assert(t.denom as int % t.denom as int == 0);
                assert(t.denom as int % 1 == 0);
                assert(t.denom as int % r.denom as int == 0);
                lemma_divides_trans(r.denom as int, t.denom as int, m);
            }
        }
        self.seconds = r;
    }
}

/// Whether a widget with refresh interval `interval` is due at `seconds`:
/// `seconds % interval == 0`, in exact arithmetic.
pub fn is_due(seconds: Rational, interval: Rational) -> (r: bool)
    requires
        seconds.wf(),
        seconds.below(WRAP_SECONDS as int),
        seconds.denom <= MAX_TERM,
        interval_ok(interval),
    ensures
        r == seconds.is_multiple_of(interval),
{
    proof {
        let sn = seconds.numer as int;
        let sd = seconds.denom as int;
        let n = interval.numer as int;
        let d = interval.denom as int;
        assert(sn * d <= u64::MAX) by (nonlinear_arith)
            requires
                sn < 60 * sd,
                sd <= MAX_TERM,
                0 < d <= MAX_TERM,
        ;
        assert(n * sd <= u64::MAX) by (nonlinear_arith)
            requires
                0 < n <= MAX_TERM,
                0 < sd <= MAX_TERM,
        ;
        assert(sd * d <= u64::MAX) by (nonlinear_arith)
            requires
                0 < d <= MAX_TERM,
                0 < sd <= MAX_TERM,
        ;
    }
    is_multiple(seconds, interval)
}

/// For each refresh interval, whether its widget is due at `seconds`.
pub fn due_widgets(seconds: Rational, intervals: &Vec<Rational>) -> (r: Vec<bool>)
    requires
        seconds.wf(),
        seconds.below(WRAP_SECONDS as int),
        seconds.denom <= MAX_TERM,
        forall|i: int| 0 <= i < intervals@.len() ==> interval_ok(#[trigger] intervals@[i]),
    ensures
        r@.len() == intervals@.len(),
        forall|i: int|
            0 <= i < r@.len() ==> #[trigger] r@[i] == seconds.is_multiple_of(intervals@[i]),
{
    let mut r: Vec<bool> = Vec::new();
    let mut k: usize = 0;
    while k < intervals.len()
        invariant
            k <= intervals@.len(),
            r@.len() == k,
            seconds.wf(),
            seconds.below(WRAP_SECONDS as int),
            seconds.denom <= MAX_TERM,
            forall|i: int| 0 <= i < intervals@.len() ==> interval_ok(#[trigger] intervals@[i]),
            forall|i: int| 0 <= i < k ==> #[trigger] r@[i] == seconds.is_multiple_of(intervals@[i]),
        decreases intervals@.len() - k,
    {
        let due = is_due(seconds, intervals[k]);
        r.push(due);
        k = k + 1;
    }
    r
}

/// Denominator of the exact sum of `steps`, as the product of their denominators.
pub open spec fn sum_denom(steps: Seq<Rational>) -> int
    decreases steps.len(),
{
    if steps.len() == 0 {
        1
    } else {
        sum_denom(steps.drop_last()) * steps.last().denom as int
    }
}

/// Numerator of the exact sum of `steps` over [`sum_denom`].
pub open spec fn sum_numer(steps: Seq<Rational>) -> int
    decreases steps.len(),
{
    if steps.len() == 0 {
        0
    } else {
        sum_numer(steps.drop_last()) * steps.last().denom as int + steps.last().numer as int
            * sum_denom(steps.drop_last())
    }
}

/// `c` is `n / d` reduced modulo 60.
pub open spec fn is_wrapped(c: Rational, n: int, d: int) -> bool {
    c.numer as int * d == (n % (WRAP_SECONDS as int * d)) * c.denom as int
}

proof fn lemma_sum_positive(steps: Seq<Rational>)
    requires
        forall|k: int| 0 <= k < steps.len() ==> (#[trigger] steps[k]).wf(),
    ensures
        sum_denom(steps) > 0,
        sum_numer(steps) >= 0,
    decreases steps.len(),
{
    if steps.len() > 0 {
        let init = steps.drop_last();
        assert forall|k: int| 0 <= k < init.len() implies (#[trigger] init[k]).wf() by {
            assert(init[k] == steps[k]);
        }
        lemma_sum_positive(init);
        let d = sum_denom(init);
        let n = sum_numer(init);
        let l = steps.last();
        assert(steps[steps.len() - 1].wf());
        assert(d * l.denom as int > 0) by (nonlinear_arith)
            requires
                d > 0,
                l.denom > 0,
        ;
        assert(n * l.denom as int + l.numer as int * d >= 0) by (nonlinear_arith)
            requires
                d > 0,
                n >= 0,
        ;
    }
}

/// One advance keeps the clock equal to the running sum modulo 60.
proof fn lemma_advance_step(c: Rational, s: Rational, next: Rational, n: int, d: int)
    requires
        c.wf(),
        s.wf(),
        next.wf(),
        d > 0,
        n >= 0,
        is_wrapped(c, n, d),
        advanced(c, s, next),
    ensures
        is_wrapped(next, n * s.denom as int + s.numer as int * d, d * s.denom as int),
{
    let cn = c.numer as int;
    let cd = c.denom as int;
    let sn = s.numer as int;
    let sd = s.denom as int;
    let a = cn * sd + sn * cd;
    let m = 60 * (cd * sd);
    let b = n * sd + sn * d;
    let m2 = 60 * (d * sd);
    let q = m * d;
    assert(q == m2 * cd) by (nonlinear_arith)
        requires
            q == m * d,
            m == 60 * (cd * sd),
            m2 == 60 * (d * sd),
    ;
    assert(m > 0 && m2 > 0) by (nonlinear_arith)
        requires
            cd > 0,
            sd > 0,
            d > 0,
            m == 60 * (cd * sd),
            m2 == 60 * (d * sd),
    ;
    assert(a >= 0 && b >= 0) by (nonlinear_arith)
        requires
            cn >= 0,
            sn >= 0,
            cd > 0,
            sd > 0,
            n >= 0,
            d > 0,
            a == cn * sd + sn * cd,
            b == n * sd + sn * d,
    ;
    lemma_mod_scale(a, m, d);
    lemma_mod_scale(b, m2, cd);
    let w = n / (60 * d);
    vstd::arithmetic::div_mod::lemma_fundamental_div_mod(n, 60 * d);
    let r = n % (60 * d);
    assert(cn * sd * d == sd * (r * cd)) by (nonlinear_arith)
        requires
            cn * d == r * cd,
    ;
    assert(sd * (r * cd) == sd * cd * n - q * w) by (nonlinear_arith)
        requires
            n == (60 * d) * w + r,
            q == m * d,
            m == 60 * (cd * sd),
    ;
    assert(sn * cd * d == sn * d * cd) by (nonlinear_arith);
    assert(a * d == cn * sd * d + sn * cd * d) by (nonlinear_arith)
        requires
            a == cn * sd + sn * cd,
    ;
    assert(b * cd == n * sd * cd + sn * d * cd) by (nonlinear_arith)
        requires
            b == n * sd + sn * d,
    ;
    assert(sd * cd * n == n * sd * cd) by (nonlinear_arith);
    assert(q * (-w) == -(q * w)) by (nonlinear_arith);
    assert(a * d == q * (-w) + b * cd);
    assert(q > 0) by (nonlinear_arith)
        requires
            q == m * d,
            m > 0,
            d > 0,
    ;
    vstd::arithmetic::div_mod::lemma_mod_multiples_vanish(-w, b * cd, q);
    assert((a * d) % q == (b * cd) % q);
    assert(next.numer as int * (cd * sd) == (a % m) * next.denom as int);
    assert(next.numer as int * (d * sd) == (b % m2) * next.denom as int) by (nonlinear_arith)
        requires
            next.numer as int * (cd * sd) == (a % m) * next.denom as int,
            (a % m) * d == (b % m2) * cd,
            cd > 0,
    ;
}

/// However many advances are made, and by whatever steps, the clock equals the exact sum
/// of the steps modulo 60 (and so never drifts), and stays in `[0, 60)`.
pub proof fn lemma_clock_is_sum_mod_60(steps: Seq<Rational>, clocks: Seq<Rational>)
    requires
        clocks.len() == steps.len() + 1,
        clocks[0].numer == 0,
        forall|k: int| 0 <= k < clocks.len() ==> (#[trigger] clocks[k]).wf(),
        forall|k: int| 0 <= k < steps.len() ==> (#[trigger] steps[k]).wf(),
        forall|k: int|
            0 <= k < steps.len() ==> advanced(#[trigger] clocks[k], steps[k], clocks[k + 1]),
    ensures
        forall|k: int|
            0 <= k < clocks.len() ==> is_wrapped(
                #[trigger] clocks[k],
                sum_numer(steps.take(k)),
                sum_denom(steps.take(k)),
            ) && clocks[k].below(WRAP_SECONDS as int),
    decreases steps.len(),
{
    if steps.len() == 0 {
        assert(steps.take(0) =~= steps);
        assert(0int % 60 == 0);
    } else {
        let init = steps.drop_last();
        let cinit = clocks.drop_last();
        assert forall|k: int| 0 <= k < init.len() implies advanced(
            #[trigger] cinit[k],
            init[k],
            cinit[k + 1],
        ) by {
            assert(cinit[k] == clocks[k] && init[k] == steps[k] && cinit[k + 1] == clocks[k + 1]);
        }
        assert forall|k: int| 0 <= k < cinit.len() implies (#[trigger] cinit[k]).wf() by {
            assert(cinit[k] == clocks[k]);
        }
        assert forall|k: int| 0 <= k < init.len() implies (#[trigger] init[k]).wf() by {
            assert(init[k] == steps[k]);
        }
        lemma_clock_is_sum_mod_60(init, cinit);
        assert forall|k: int| 0 <= k < clocks.len() implies is_wrapped(
            #[trigger] clocks[k],
            sum_numer(steps.take(k)),
            sum_denom(steps.take(k)),
        ) && clocks[k].below(WRAP_SECONDS as int) by {
            if k < clocks.len() - 1 {
                assert(steps.take(k) =~= init.take(k));
                assert(cinit[k] == clocks[k]);
            } else {
                let j = steps.len() - 1;
                assert(steps.take(j) =~= init.take(j));
                assert(cinit[j] == clocks[j]);
                assert(steps.take(k).drop_last() =~= steps.take(j));
                assert(steps.take(k).last() == steps[j]);
                let tj = steps.take(j);
                assert forall|t: int| 0 <= t < tj.len() implies (#[trigger] tj[t]).wf() by {
                    assert(tj[t] == steps[t]);
                }
                lemma_sum_positive(tj);
                assert(advanced(clocks[j], steps[j], clocks[j + 1]));
                lemma_advance_step(clocks[j], steps[j], clocks[k], sum_numer(tj), sum_denom(tj));
                let n2 = sum_numer(steps.take(k));
                let d2 = sum_denom(steps.take(k));
                let c = clocks[k];
                assert(d2 > 0) by (nonlinear_arith)
                    requires
                        d2 == sum_denom(tj) * steps[j].denom as int,
                        sum_denom(tj) > 0,
                        steps[j].denom > 0,
                ;
                assert(0 <= n2 % (60 * d2) < 60 * d2);
                assert(c.numer < 60 * c.denom) by (nonlinear_arith)
                    requires
                        c.numer as int * d2 == (n2 % (60 * d2)) * c.denom as int,
                        0 <= n2 % (60 * d2) < 60 * d2,
                        d2 > 0,
                        c.denom > 0,
                ;
            }
        }
    }
}

/// With a whole number of seconds on the clock, a widget refreshed every second is due.
pub proof fn lemma_every_second_due_on_whole_seconds(seconds: Rational)
    requires
        seconds.wf(),
        seconds.denom == 1,
    ensures
        seconds.is_multiple_of(Rational { numer: 1, denom: 1 }),
{
    assert(seconds.numer as int * 1 == seconds.numer as int);
    assert(1int * 1 == 1);
}

/// On a clock that wraps at 60, a widget refreshed every 60 seconds is due only at zero,
/// once per wrap-around.
pub proof fn lemma_minute_due_only_at_zero(seconds: Rational)
    requires
        seconds.wf(),
        seconds.below(WRAP_SECONDS as int),
    ensures
        seconds.is_multiple_of(Rational { numer: 60, denom: 1 }) <==> seconds.numer == 0,
{
    let n = seconds.numer as int;
    let d = seconds.denom as int;
    assert(n * 1 == n);
    assert(n < 60 * d);
    assert(d * 60 == 60 * d);
    assert(0 <= n < d * 60);
    vstd::arithmetic::div_mod::lemma_small_mod(n as nat, (d * 60) as nat);
}

/// At zero seconds, the first pass, every widget is due.
pub proof fn lemma_all_due_at_zero(seconds: Rational, interval: Rational)
    requires
        seconds.wf(),
        seconds.numer == 0,
        interval_ok(interval),
    ensures
        seconds.is_multiple_of(interval),
{
    let d = seconds.denom as int * interval.numer as int;
    assert(d > 0) by (nonlinear_arith)
        requires
            seconds.denom > 0,
            interval.numer > 0,
            d == seconds.denom as int * interval.numer as int,
    ;
    assert(0 * interval.denom as int == 0);
    vstd::arithmetic::div_mod::lemma_small_mod(0, d as nat);
}

} // verus!
