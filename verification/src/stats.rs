//! Population variance of a finite sample of integers, computed exactly.

use crate::score::{Ratio, Score};
use vstd::arithmetic::div_mod::{lemma_fundamental_div_mod, lemma_mod_bound};
use vstd::prelude::*;

verus! {

/// The sum of the values of `s`.
pub open spec fn sum(s: Seq<int>) -> int
    decreases s.len(),
{
    if s.len() == 0 {
        0
    } else {
        sum(s.drop_last()) + s.last()
    }
}

/// The sum of the squares of the values of `s`.
pub open spec fn sum_of_squares(s: Seq<int>) -> int
    decreases s.len(),
{
    if s.len() == 0 {
        0
    } else {
        sum_of_squares(s.drop_last()) + s.last() * s.last()
    }
}

/// The sum over `s` of `(n * v - total)^2`: the squared distance of each value
/// from the mean `total / n`, scaled by `n^2` to stay among the integers.
pub open spec fn sum_of_scaled_deviations(s: Seq<int>, n: int, total: int) -> int
    decreases s.len(),
{
    if s.len() == 0 {
        0
    } else {
        sum_of_scaled_deviations(s.drop_last(), n, total) + (n * s.last() - total) * (n * s.last()
            - total)
    }
}

/// The population variance of a sample by its definition: the mean of the
/// squared distances from the mean, dividing by `n` and not by `n - 1`. With
/// the distances scaled by `n^2` this is
/// `sum((n * v - sum)^2) / n^3`. An empty sample has variance zero.
pub open spec fn population_variance(s: Seq<int>) -> Ratio {
    let n = s.len() as int;
    if n == 0 {
        Ratio { num: 0, den: 1 }
    } else {
        Ratio { num: sum_of_scaled_deviations(s, n, sum(s)), den: n * n * n }
    }
}

/// The population variance of a sample in the form that one pass computes:
/// the mean of the squares minus the square of the mean,
/// `(n * sum(v^2) - sum(v)^2) / n^2`. An empty sample has variance zero.
pub open spec fn variance_by_moments(s: Seq<int>) -> Ratio {
    let n = s.len() as int;
    if n == 0 {
        Ratio { num: 0, den: 1 }
    } else {
        Ratio { num: n * sum_of_squares(s) - sum(s) * sum(s), den: n * n }
    }
}

/// The values of a sample of machine integers.
pub open spec fn ints(s: Seq<i32>) -> Seq<int> {
    s.map_values(|v: i32| v as int)
}

/// Every value of `s` lies between `lo` and `hi`.
pub open spec fn within(s: Seq<int>, lo: int, hi: int) -> bool {
    forall|i: int| 0 <= i < s.len() ==> lo <= #[trigger] s[i] <= hi
}

/// Over any prefix, the scaled deviations expand into the three moments.
proof fn lemma_deviations_expand(s: Seq<int>, n: int, total: int)
    ensures
        sum_of_scaled_deviations(s, n, total) == n * n * sum_of_squares(s) - 2 * n * total * sum(s)
            + s.len() * total * total,
        sum_of_scaled_deviations(s, n, total) >= 0,
    decreases s.len(),
{
    if s.len() == 0 {
        assert(n * n * 0 - 2 * n * total * 0 + 0 * total * total == 0) by (nonlinear_arith);
    } else {
        let p = s.drop_last();
        let v = s.last();
        lemma_deviations_expand(p, n, total);
        let a = sum_of_squares(p);
        let b = sum(p);
        let k = p.len() as int;
        assert((n * v - total) * (n * v - total) >= 0) by (nonlinear_arith);
        assert(n * n * a - 2 * n * total * b + k * total * total + (n * v - total) * (n * v
            - total) == n * n * (a + v * v) - 2 * n * total * (b + v) + (k + 1) * total * total)
            by (nonlinear_arith);
    }
}

/// The two forms of the variance are the same number, and it is not negative:
/// `n * sum(v^2) >= sum(v)^2`.
pub proof fn lemma_variance_forms_agree(s: Seq<int>)
    ensures
        variance_by_moments(s).same(population_variance(s)),
        variance_by_moments(s).num >= 0,
        variance_by_moments(s).den > 0,
        population_variance(s).num >= 0,
        population_variance(s).den > 0,
        s.len() > 0 ==> sum_of_scaled_deviations(s, s.len() as int, sum(s)) == s.len() * (s.len()
            * sum_of_squares(s) - sum(s) * sum(s)),
{
    let n = s.len() as int;
    if n > 0 {
        let t = sum(s);
        let q = sum_of_squares(s);
        let d = sum_of_scaled_deviations(s, n, t);
        lemma_deviations_expand(s, n, t);
        assert(n * n * q - 2 * n * t * t + n * t * t == n * (n * q - t * t)) by (nonlinear_arith);
        assert(n * q - t * t >= 0) by (nonlinear_arith)
            requires
                n > 0,
                n * (n * q - t * t) >= 0,
        ;
        assert((n * q - t * t) * (n * n * n) == d * (n * n)) by (nonlinear_arith)
            requires
                d == n * (n * q - t * t),
        ;
        assert(n * n > 0 && n * n * n > 0) by (nonlinear_arith)
            requires
                n > 0,
        ;
    }
}

/// A sample whose values are all equal has variance zero.
pub proof fn lemma_constant_sample(s: Seq<int>, c: int)
    requires
        within(s, c, c),
    ensures
        sum(s) == s.len() * c,
        sum_of_squares(s) == s.len() * (c * c),
        variance_by_moments(s).num == 0,
        population_variance(s).num == 0,
    decreases s.len(),
{
    let n = s.len() as int;
    if n == 0 {
        assert(0 * c == 0 && 0 * (c * c) == 0) by (nonlinear_arith);
    } else {
        let p = s.drop_last();
        assert(within(p, c, c)) by {
            assert forall|i: int| 0 <= i < p.len() implies c <= #[trigger] p[i] <= c by {
                assert(p[i] == s[i]);
            }
        }
        lemma_constant_sample(p, c);
        assert(s.last() == s[n - 1]);
        assert((n - 1) * c + c == n * c) by (nonlinear_arith);
        assert((n - 1) * (c * c) + c * c == n * (c * c)) by (nonlinear_arith);
        assert(n * (n * (c * c)) - (n * c) * (n * c) == 0) by (nonlinear_arith);
        lemma_variance_forms_agree(s);
        assert(sum_of_scaled_deviations(s, n, sum(s)) == 0) by (nonlinear_arith)
            requires
                sum_of_scaled_deviations(s, n, sum(s)) == n * (n * sum_of_squares(s) - sum(s)
                    * sum(s)),
                n * sum_of_squares(s) - sum(s) * sum(s) == 0,
        ;
    }
}

/// Taking one more value of a sample adds it to the moments.
proof fn lemma_moments_step(s: Seq<int>, i: int)
    requires
        0 <= i < s.len(),
    ensures
        sum(s.take(i + 1)) == sum(s.take(i)) + s[i],
        sum_of_squares(s.take(i + 1)) == sum_of_squares(s.take(i)) + s[i] * s[i],
{
    assert(s.take(i + 1).drop_last() =~= s.take(i));
    assert(s.take(i + 1).last() == s[i]);
}

/// Where `a = q * n + r` and `n * big >= a^2`, the part of `big` that is left
/// after `q^2 * n + 2 * q * r` is not negative, and `n` times it exceeds the
/// wanted numerator by `r^2`.
proof fn lemma_reduce_by_quotient(n: int, big: int, a: int, q: int, r: int)
    by (nonlinear_arith)
    requires
        n > 0,
        q >= 0,
        0 <= r < n,
        a == q * n + r,
        n * big - a * a >= 0,
    ensures
        big - q * q * n - 2 * q * r >= 0,
        n * (big - q * q * n - 2 * q * r) - r * r == n * big - a * a,
        q * q * n >= 0,
        2 * q * r >= 0,
{
    assert(a * a == q * q * n * n + 2 * q * r * n + r * r);
    assert(n * (big - q * q * n - 2 * q * r) == n * big - q * q * n * n - 2 * q * r * n);
    assert(r * r >= 0);
    if big - q * q * n - 2 * q * r <= -1 {
        assert(n * (big - q * q * n - 2 * q * r) <= -n);
    }
}

/// Where `r^2 = t * n + u`, taking it from `n * b` leaves `n * c + v` with
/// `0 <= v < n`.
proof fn lemma_reduce_by_remainder(n: int, b: int, rr: int, t: int, u: int, c: int, v: int)
    by (nonlinear_arith)
    requires
        n > 0,
        rr == t * n + u,
        0 <= u < n,
        n * b - rr >= 0,
        u == 0 ==> c == b - t && v == 0,
        u != 0 ==> c == b - t - 1 && v == n - u,
    ensures
        c >= 0,
        0 <= v < n,
        n * c + v == n * b - rr,
{
    if c <= -1 {
        assert(n * c <= -n);
    }
}

/// With `c = whole * n + rest`, the number `(n * c + v) / n^2` is
/// `whole + (rest * n + v) / n^2`, and the second part is a proper fraction.
proof fn lemma_mixed_form(n: int, c: int, v: int, whole: int, rest: int)
    by (nonlinear_arith)
    requires
        n > 0,
        0 <= v < n,
        0 <= rest < n,
        c == n * whole + rest,
    ensures
        0 <= rest * n + v < n * n,
        whole * (n * n) + (rest * n + v) == n * c + v,
{
    assert(rest * n <= (n - 1) * n);
}

/// The number `(count * squares - total^2) / count^2` as a score.
fn variance_from_moments(count: u64, total: i128, squares: u128) -> (score: Score)
    requires
        count > 0,
        -0x8000_0000 * count <= total <= 0x8000_0000 * count,
        squares <= 0x4000_0000_0000_0000 * count,
        count * squares - total * total >= 0,
    ensures
        score.proper(),
        score@ == (Ratio { num: count * squares - total * total, den: count * count }),
{
    let n: u128 = count as u128;
    let size: u128 = if total < 0 {
        (-total) as u128
    } else {
        total as u128
    };
    let q: u128 = size / n;
    let r: u128 = size % n;
    proof {
        lemma_fundamental_div_mod(size as int, n as int);
        lemma_mod_bound(size as int, n as int);
        assert(size * size == total * total) by (nonlinear_arith)
            requires
                size == total || size == -total,
        ;
        assert(q <= 0x8000_0000) by (nonlinear_arith)
            requires
                n > 0,
                r >= 0,
                size == n * q + r,
                size <= 0x8000_0000 * n,
        ;
        assert(n * q == q * n) by (nonlinear_arith);
        lemma_reduce_by_quotient(n as int, squares as int, size as int, q as int, r as int);
        assert(q * q <= 0x4000_0000_0000_0000) by (nonlinear_arith)
            requires
                q <= 0x8000_0000,
        ;
        assert(q * q * n <= 0x4000_0000_0000_0000 * 0xffff_ffff_ffff_ffff) by (nonlinear_arith)
            requires
                q * q <= 0x4000_0000_0000_0000,
                n <= 0xffff_ffff_ffff_ffff,
        ;
        assert(2 * q * r <= 2 * 0x8000_0000 * 0xffff_ffff_ffff_ffff) by (nonlinear_arith)
            requires
                q <= 0x8000_0000,
                r <= 0xffff_ffff_ffff_ffff,
        ;
        assert(r * r <= 0xffff_ffff_ffff_ffff * 0xffff_ffff_ffff_ffff) by (nonlinear_arith)
            requires
                r <= 0xffff_ffff_ffff_ffff,
        ;
        assert(n * n <= 0xffff_ffff_ffff_ffff * 0xffff_ffff_ffff_ffff) by (nonlinear_arith)
            requires
                n <= 0xffff_ffff_ffff_ffff,
        ;
    }
    let taken: u128 = q * q * n + 2 * q * r;
    let b: u128 = squares - taken;
    let rr: u128 = r * r;
    let t: u128 = rr / n;
    let u: u128 = rr % n;
    proof {
        lemma_fundamental_div_mod(rr as int, n as int);
        lemma_mod_bound(rr as int, n as int);
        assert(n * t == t * n) by (nonlinear_arith);
        lemma_reduce_by_remainder(
            n as int,
            b as int,
            rr as int,
            t as int,
            u as int,
            if u == 0 {
                b - t
            } else {
                b - t - 1
            },
            if u == 0 {
                0
            } else {
                n - u
            },
        );
    }
    let c: u128 = if u == 0 {
        b - t
    } else {
        b - t - 1
    };
    let v: u128 = if u == 0 {
        0
    } else {
        n - u
    };
    let whole: u128 = c / n;
    let rest: u128 = c % n;
    proof {
        lemma_fundamental_div_mod(c as int, n as int);
        lemma_mod_bound(c as int, n as int);
        lemma_mixed_form(n as int, c as int, v as int, whole as int, rest as int);
    }
    let num: u128 = rest * n + v;
    let den: u128 = n * n;
    let made = Score::new(whole, num, den);
    made.unwrap()
}

/// The population variance of `values`: the mean of the squared distances from
/// the mean, dividing by the number of values. An empty sample has variance
/// zero. The result is exact, with the square of the number of values as its
/// denominator.
pub fn population_variance_of(values: &[i32]) -> (score: Score)
    ensures
        score.proper(),
        score@ == variance_by_moments(ints(values@)),
        score@.same(population_variance(ints(values@))),
{
    let ghost s = ints(values@);
    let len: usize = values.len();
    if len == 0 {
        proof {
            lemma_variance_forms_agree(s);
        }
        return Score::zero();
    }
    let mut total: i128 = 0;
    let mut squares: u128 = 0;
    let mut i: usize = 0;
    while i < len
        invariant
            len == values.len(),
            s == ints(values@),
            0 <= i <= len,
            total == sum(s.take(i as int)),
            squares == sum_of_squares(s.take(i as int)),
            -0x8000_0000 * i <= total <= 0x8000_0000 * i,
            squares <= 0x4000_0000_0000_0000 * i,
        decreases len - i,
    {
        let v: i128 = values[i] as i128;
        proof {
            lemma_moments_step(s, i as int);
            assert(s[i as int] == v);
            assert(0 <= v * v <= 0x4000_0000_0000_0000) by (nonlinear_arith)
                requires
                    -0x8000_0000 <= v <= 0x8000_0000,
            ;
        }
        total = total + v;
        squares = squares + (v * v) as u128;
        i = i + 1;
    }
    proof {
        assert(s.take(len as int) =~= s);
        lemma_variance_forms_agree(s);
    }
    variance_from_moments(len as u64, total, squares)
}

} // verus!
