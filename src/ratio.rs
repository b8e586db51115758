use num_rational::Ratio;
use vstd::prelude::*;

verus! {

/// A non-negative rational number `numer / denom`, not necessarily in lowest terms.
#[derive(Clone, Copy, Debug)]
pub struct Rational {
    pub numer: u64,
    pub denom: u64,
}

/// `d` divides every positive common multiple of `d1` and `d2`.
pub open spec fn divides_common_multiples(d1: int, d2: int, d: int) -> bool {
    forall|m: int| m > 0 && m % d1 == 0 && m % d2 == 0 ==> #[trigger] (m % d) == 0
}

impl Rational {
    /// The denominator is positive.
    pub open spec fn wf(self) -> bool {
        self.denom > 0
    }

    /// `self` is a whole multiple of `other`: `self % other == 0` (for a positive `other`).
    pub open spec fn is_multiple_of(self, other: Rational) -> bool {
        (self.numer as int * other.denom as int) % (self.denom as int * other.numer as int) == 0
    }

    /// `self` lies in `[0, bound)`.
    pub open spec fn below(self, bound: int) -> bool {
        self.numer < bound * self.denom
    }

    /// The rational number `n / 1`.
    pub fn from_integer(n: u64) -> (r: Rational)
        ensures
            r.numer == n,
            r.denom == 1,
    {
        Rational { numer: n, denom: 1 }
    }

    /// `numer / denom`, kept as given.
    pub fn new_raw(numer: u64, denom: u64) -> (r: Rational)
        ensures
            r.numer == numer,
            r.denom == denom,
    {
        Rational { numer, denom }
    }
}

/// Relies on `Add` for `num_rational::Ratio<u64>`: the exact sum, put in lowest terms,
/// so that its denominator divides every common multiple of the two denominators.
/// Its intermediate products are at most `a.numer * b.denom`, `b.numer * a.denom`
/// and `a.denom * b.denom`, which the precondition keeps in range.
#[verifier::external_body]
pub(crate) fn ratio_add(a: Rational, b: Rational) -> (r: Rational)
    requires
        a.wf(),
        b.wf(),
        a.numer as int * b.denom as int + b.numer as int * a.denom as int <= u64::MAX,
        a.denom as int * b.denom as int <= u64::MAX,
    ensures
        r.wf(),
        r.numer as int * (a.denom as int * b.denom as int) == (a.numer as int * b.denom as int
            + b.numer as int * a.denom as int) * r.denom as int,
        divides_common_multiples(a.denom as int, b.denom as int, r.denom as int),
{
    let s = Ratio::new_raw(a.numer, a.denom) + Ratio::new_raw(b.numer, b.denom);
    Rational { numer: *s.numer(), denom: *s.denom() }
}

/// Relies on `Rem` for `num_rational::Ratio<u64>`: `a - k * b` for the largest whole
/// `k` with `k * b <= a`, put in lowest terms, so that its denominator divides every
/// common multiple of the two denominators. A zero `b` panics, so it is excluded.
#[verifier::external_body]
pub(crate) fn ratio_rem(a: Rational, b: Rational) -> (r: Rational)
    requires
        a.wf(),
        b.wf(),
        b.numer > 0,
        a.numer as int * b.denom as int <= u64::MAX,
        b.numer as int * a.denom as int <= u64::MAX,
        a.denom as int * b.denom as int <= u64::MAX,
    ensures
        r.wf(),
        r.numer as int * (a.denom as int * b.denom as int) == ((a.numer as int * b.denom as int)
            % (a.denom as int * b.numer as int)) * r.denom as int,
        divides_common_multiples(a.denom as int, b.denom as int, r.denom as int),
{
    let s = Ratio::new_raw(a.numer, a.denom) % Ratio::new_raw(b.numer, b.denom);
    Rational { numer: *s.numer(), denom: *s.denom() }
}

/// `(x * k) % (m * k) == (x % m) * k`.
pub proof fn lemma_mod_scale(x: int, m: int, k: int)
    requires
        x >= 0,
        m > 0,
        k > 0,
    ensures
        (x * k) % (m * k) == (x % m) * k,
{
    let q = x / m;
    let r = x % m;
    vstd::arithmetic::div_mod::lemma_fundamental_div_mod(x, m);
    assert(x * k == q * (m * k) + r * k) by (nonlinear_arith)
        requires
            x == m * q + r,
    ;
    assert(0 <= r * k < m * k) by (nonlinear_arith)
        requires
            0 <= r < m,
            k > 0,
    ;
    vstd::arithmetic::div_mod::lemma_fundamental_div_mod_converse_mod(x * k, m * k, q, r * k);
}

/// Whether `a` is a whole multiple of `b`, that is `a % b == 0`.
pub fn is_multiple(a: Rational, b: Rational) -> (r: bool)
    requires
        a.wf(),
        b.wf(),
        b.numer > 0,
        a.numer as int * b.denom as int <= u64::MAX,
        b.numer as int * a.denom as int <= u64::MAX,
        a.denom as int * b.denom as int <= u64::MAX,
    ensures
        r == a.is_multiple_of(b),
{
    let m = ratio_rem(a, b);
    proof {
        let p = a.denom as int * b.denom as int;
        let q = (a.numer as int * b.denom as int) % (a.denom as int * b.numer as int);
        assert(p > 0) by (nonlinear_arith)
            requires
                a.denom > 0,
                b.denom > 0,
                p == a.denom as int * b.denom as int,
        ;
        assert(m.numer == 0 <==> q == 0) by (nonlinear_arith)
            requires
                m.numer as int * p == q * m.denom as int,
                p > 0,
                m.denom > 0,
        ;
    }
    m.numer == 0
}

} // verus!
