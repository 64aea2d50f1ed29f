//! Exact non-negative rational numbers.

use vstd::arithmetic::div_mod::{
    lemma_fundamental_div_mod,
    lemma_fundamental_div_mod_converse,
    lemma_mod_bound,
};
use vstd::prelude::*;

verus! {

/// The rational number `num / den`, as contracts speak of it. It is meaningful
/// where `den > 0`.
pub struct Ratio {
    pub num: int,
    pub den: int,
}

impl Ratio {
    /// `self < other`, for positive denominators.
    pub open spec fn lt(self, other: Ratio) -> bool {
        self.num * other.den < other.num * self.den
    }

    /// `self <= other`, for positive denominators.
    pub open spec fn le(self, other: Ratio) -> bool {
        self.num * other.den <= other.num * self.den
    }

    /// `self` and `other` are the same number, for positive denominators.
    pub open spec fn same(self, other: Ratio) -> bool {
        self.num * other.den == other.num * self.den
    }
}

/// A non-negative rational number held exactly as `whole + num / den` with
/// `num < den`.
#[derive(Clone, Copy, Debug)]
pub struct Score {
    whole: u128,
    num: u128,
    den: u128,
}

impl View for Score {
    type V = Ratio;

    /// The number as one fraction: `(whole * den + num) / den`.
    open spec fn view(&self) -> Ratio {
        Ratio {
            num: self.spec_whole() * self.spec_denominator() + self.spec_numerator(),
            den: self.spec_denominator(),
        }
    }
}

impl Score {
    /// The integer part.
    pub closed spec fn spec_whole(&self) -> int {
        self.whole as int
    }

    /// The numerator of the fractional part.
    pub closed spec fn spec_numerator(&self) -> int {
        self.num as int
    }

    /// The denominator of the fractional part.
    pub closed spec fn spec_denominator(&self) -> int {
        self.den as int
    }

    /// The fractional part is a proper fraction.
    #[verifier::type_invariant]
    pub closed spec fn proper(&self) -> bool {
        self.num < self.den
    }

    /// What `proper` means in terms of the three parts.
    pub proof fn lemma_proper(&self)
        requires
            self.proper(),
        ensures
            0 <= self.spec_whole() <= u128::MAX,
            0 <= self.spec_numerator() < self.spec_denominator() <= u128::MAX,
            self@.den > 0,
            self@.num >= 0,
    {
        assert(self.whole * self.den >= 0) by (nonlinear_arith);
    }

    /// The value decides the parts: the integer part is the quotient and the
    /// numerator of the fractional part the remainder of the value's numerator
    /// by its denominator.
    pub proof fn lemma_parts_from_value(&self)
        requires
            self.proper(),
        ensures
            self.spec_denominator() == self@.den,
            self.spec_whole() == self@.num / self@.den,
            self.spec_numerator() == self@.num % self@.den,
    {
        lemma_fundamental_div_mod_converse(
            self@.num,
            self@.den,
            self.spec_whole(),
            self.spec_numerator(),
        );
    }

    /// The number zero.
    pub fn zero() -> (s: Score)
        ensures
            s.proper(),
            s.spec_whole() == 0,
            s.spec_numerator() == 0,
            s.spec_denominator() == 1,
            s@ == (Ratio { num: 0, den: 1 }),
    {
        Score { whole: 0, num: 0, den: 1 }
    }

    /// `whole + num / den`, where `num < den`; `None` where it is not.
    pub fn new(whole: u128, num: u128, den: u128) -> (s: Option<Score>)
        ensures
            s is Some <==> num < den,
            s matches Some(v) ==> {
                &&& v.proper()
                &&& v.spec_whole() == whole
                &&& v.spec_numerator() == num
                &&& v.spec_denominator() == den
            },
    {
        if num < den {
            Some(Score { whole, num, den })
        } else {
            None
        }
    }

    /// The number `num / den`; `None` where `den` is zero.
    pub fn from_ratio(num: u128, den: u128) -> (s: Option<Score>)
        ensures
            s is Some <==> den > 0,
            s matches Some(v) ==> {
                &&& v.proper()
                &&& v@ == (Ratio { num: num as int, den: den as int })
                &&& v.spec_whole() == num as int / den as int
                &&& v.spec_numerator() == num as int % den as int
            },
    {
        if den == 0 {
            return None;
        }
        let whole: u128 = num / den;
        let rest: u128 = num % den;
        proof {
            lemma_fundamental_div_mod(num as int, den as int);
            lemma_mod_bound(num as int, den as int);
            assert(den * (num as int / den as int) == (num as int / den as int) * den)
                by (nonlinear_arith);
        }
        Some(Score { whole, num: rest, den })
    }

    /// The integer part.
    pub fn whole(&self) -> (w: u128)
        ensures
            w == self.spec_whole(),
    {
        self.whole
    }

    /// The numerator of the fractional part.
    pub fn numerator(&self) -> (n: u128)
        ensures
            n == self.spec_numerator(),
            self.proper(),
    {
        proof {
            use_type_invariant(self);
        }
        self.num
    }

    /// The denominator of the fractional part, which is never zero.
    pub fn denominator(&self) -> (d: u128)
        ensures
            d == self.spec_denominator(),
            d > 0,
            self.proper(),
    {
        proof {
            use_type_invariant(self);
        }
        self.den
    }

    /// Whether this number is smaller than, equal to or greater than `p / q`:
    /// -1, 0 or 1.
    fn sign_against(&self, p: u64, q: u64) -> (sign: i8)
        requires
            q > 0,
        ensures
            self.proper(),
            -1 <= sign <= 1,
            sign == -1 <==> self@.lt(Ratio { num: p as int, den: q as int }),
            sign == 0 <==> self@.same(Ratio { num: p as int, den: q as int }),
            sign == 1 <==> (Ratio { num: p as int, den: q as int }).lt(self@),
    {
        proof {
            use_type_invariant(self);
        }
        let units: u128 = (p / q) as u128;
        let rest: u128 = (p % q) as u128;
        let wide_q: u128 = q as u128;
        proof {
            lemma_fundamental_div_mod(p as int, q as int);
            lemma_mod_bound(p as int, q as int);
            lemma_whole_decides(
                self.whole as int,
                self.num as int,
                self.den as int,
                units as int,
                rest as int,
                q as int,
            );
        }
        if self.whole < units {
            return -1;
        }
        if self.whole > units {
            return 1;
        }
        // Equal integer parts: compare num / den with rest / q, that is
        // num * q with rest * den, where den = q * chunks + spare.
        let chunks: u128 = self.den / wide_q;
        let spare: u128 = self.den % wide_q;
        proof {
            lemma_fundamental_div_mod(self.den as int, q as int);
            lemma_mod_bound(self.den as int, q as int);
            lemma_fraction_split(
                self.num as int,
                self.den as int,
                rest as int,
                q as int,
                chunks as int,
                spare as int,
            );
        }
        let floor: u128 = rest * chunks;
        if self.num < floor {
            return -1;
        }
        let excess: u128 = self.num - floor;
        if excess >= wide_q {
            return 1;
        }
        assert(excess * wide_q <= wide_q * wide_q) by (nonlinear_arith)
            requires
                excess <= wide_q,
        ;
        assert(rest * spare <= wide_q * wide_q) by (nonlinear_arith)
            requires
                rest <= wide_q,
                spare <= wide_q,
        ;
        assert(wide_q * wide_q <= 0xffff_ffff_ffff_ffff * 0xffff_ffff_ffff_ffff)
            by (nonlinear_arith)
            requires
                wide_q <= 0xffff_ffff_ffff_ffff,
        ;
        let left: u128 = excess * wide_q;
        let right: u128 = rest * spare;
        if left < right {
            -1
        } else if left == right {
            0
        } else {
            1
        }
    }

    /// Whether this number is strictly below `p / q`.
    pub fn lt_fraction(&self, p: u64, q: u64) -> (below: bool)
        requires
            q > 0,
        ensures
            below == self@.lt(Ratio { num: p as int, den: q as int }),
    {
        self.sign_against(p, q) < 0
    }

    /// Whether this number is strictly above `p / q`.
    pub fn gt_fraction(&self, p: u64, q: u64) -> (above: bool)
        requires
            q > 0,
        ensures
            above == (Ratio { num: p as int, den: q as int }).lt(self@),
    {
        self.sign_against(p, q) > 0
    }
}

/// Two mixed numbers `w + a / d` and `u + r / q` with proper fractions compare
/// by their integer parts first, and by `a * q` against `r * d` where those
/// are equal.
proof fn lemma_whole_decides(w: int, a: int, d: int, u: int, r: int, q: int)
    by (nonlinear_arith)
    requires
        0 <= w,
        0 <= a < d,
        0 <= u,
        0 <= r < q,
    ensures
        w < u ==> (w * d + a) * q < (q * u + r) * d,
        w > u ==> (w * d + a) * q > (q * u + r) * d,
        w == u ==> ((w * d + a) * q < (q * u + r) * d <==> a * q < r * d),
        w == u ==> ((w * d + a) * q == (q * u + r) * d <==> a * q == r * d),
        w == u ==> ((w * d + a) * q > (q * u + r) * d <==> a * q > r * d),
{
    assert((w * d + a) * q == w * d * q + a * q);
    assert((q * u + r) * d == u * d * q + r * d);
    if w < u {
        assert(a * q < d * q);
        assert(w * d * q + d * q == (w + 1) * (d * q));
        assert((w + 1) * (d * q) <= u * (d * q));
        assert(u * (d * q) == u * d * q);
        assert(r * d >= 0);
    }
    if w > u {
        assert(r * d < q * d);
        assert(u * d * q + q * d == (u + 1) * (d * q));
        assert((u + 1) * (d * q) <= w * (d * q));
        assert(w * (d * q) == w * d * q);
        assert(a * q >= 0);
    }
}

/// With `d = q * chunks + spare`, comparing `a * q` with `r * d` comes down to
/// comparing `a - r * chunks` with `r * spare / q`.
proof fn lemma_fraction_split(a: int, d: int, r: int, q: int, chunks: int, spare: int)
    by (nonlinear_arith)
    requires
        0 <= a < d,
        0 <= r < q,
        0 <= chunks,
        0 <= spare < q,
        d == q * chunks + spare,
    ensures
        0 <= r * chunks <= d,
        a < r * chunks ==> a * q < r * d,
        a >= r * chunks ==> {
            &&& (a * q < r * d <==> (a - r * chunks) * q < r * spare)
            &&& (a * q == r * d <==> (a - r * chunks) * q == r * spare)
        },
        a - r * chunks >= q ==> a * q > r * d,
{
    assert(r * d == r * chunks * q + r * spare);
    assert(r * chunks <= q * chunks);
    assert(r * spare >= 0);
    assert(a * q == (a - r * chunks) * q + r * chunks * q);
    if a < r * chunks {
        assert((a - r * chunks) * q < 0);
    }
    if a - r * chunks >= q {
        assert((a - r * chunks) * q >= q * q);
        assert(r * spare < q * q);
    }
}

} // verus!
