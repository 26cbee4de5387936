//! The Thiran all-pass design: a filter whose delay is as flat as its order allows.
//!
//! For a delay of `d` samples the filter of order `n` has the feedback row
//! `a[k] = (-1)^k C(n, k) prod_{i = 0..n} (d - (n - i)) / (d - (n - k) + i)`
//! and the same row in reverse as its feed-forward row. The factor `C(n, k)`
//! is computed in whole numbers and proved to be the binomial coefficient.

use crate::filter::Filter;
use crate::sample::{at_most, exact, fraction, number, ratio, total, whole, whole_spec, zero, Sample};
use vstd::prelude::*;
use vstd::std_specs::ops::{AddSpec, DivSpec, MulSpec, NegSpec, SubSpec};

verus! {

/// The number of ways to choose `k` things out of `n`, by Pascal's rule.
pub open spec fn binomial(n: nat, k: nat) -> nat
    decreases n,
{
    if k == 0 {
        1
    } else if n == 0 {
        0
    } else {
        binomial((n - 1) as nat, (k - 1) as nat) + binomial((n - 1) as nat, k)
    }
}

/// Nothing can be chosen in more ways than none when `k` exceeds `n`.
pub proof fn lemma_binomial_beyond(n: nat, k: nat)
    requires
        k > n,
    ensures
        binomial(n, k) == 0,
    decreases n,
{
    if n > 0 {
        lemma_binomial_beyond((n - 1) as nat, (k - 1) as nat);
        lemma_binomial_beyond((n - 1) as nat, k);
    }
}

/// There is one way to choose everything.
pub proof fn lemma_binomial_all(n: nat)
    ensures
        binomial(n, n) == 1,
    decreases n,
{
    if n > 0 {
        lemma_binomial_all((n - 1) as nat);
        lemma_binomial_beyond((n - 1) as nat, n);
    }
}

/// Choosing `k` is choosing the `n - k` that are left out.
pub proof fn lemma_binomial_symmetric(n: nat, k: nat)
    requires
        k <= n,
    ensures
        binomial(n, k) == binomial(n, (n - k) as nat),
    decreases n,
{
    if k == 0 || k == n {
        lemma_binomial_all(n);
    } else {
        lemma_binomial_symmetric((n - 1) as nat, (k - 1) as nat);
        lemma_binomial_symmetric((n - 1) as nat, k);
    }
}

/// `k * C(n, k) == n * C(n - 1, k - 1)`.
proof fn lemma_absorb(n: nat, k: nat)
    requires
        n >= 1,
        k >= 1,
    ensures
        k * binomial(n, k) == n * binomial((n - 1) as nat, (k - 1) as nat),
    decreases n,
{
    let m = (n - 1) as nat;
    let j = (k - 1) as nat;
    if m == 0 {
        assert(binomial(0, k) == 0);
        assert(binomial(n, k) == binomial(0, j));
        let c = binomial(0, j) as int;
        assert(k * c == n * c) by (nonlinear_arith)
            requires
                n == 1,
                j == 0 ==> k == 1,
                j > 0 ==> c == 0,
        ;
    } else {
        lemma_absorb(m, k);
        let c_mj = binomial(m, j) as int;
        let c_mk = binomial(m, k) as int;
        let c_pj = binomial((m - 1) as nat, j) as int;
        assert(k * c_mk == m * c_pj);
        if j == 0 {
            assert(c_mj == 1);
            assert(c_pj == 1);
            assert(k * (c_mj + c_mk) == n * c_mj) by (nonlinear_arith)
                requires
                    k == 1,
                    c_mj == 1,
                    k * c_mk == m * c_pj,
                    c_pj == 1,
                    n == m + 1,
            ;
        } else {
            lemma_absorb(m, j);
            let c_pi = binomial((m - 1) as nat, (j - 1) as nat) as int;
            assert(j * c_mj == m * c_pi);
            assert(c_mj == c_pi + c_pj);
            assert(k * (c_mj + c_mk) == n * c_mj) by (nonlinear_arith)
                requires
                    k == j + 1,
                    n == m + 1,
                    k * c_mk == m * c_pj,
                    j * c_mj == m * c_pi,
                    c_mj == c_pi + c_pj,
            ;
        }
    }
}

/// `(n - k) * C(n, k) == n * C(n - 1, k)`.
proof fn lemma_absorb_rest(n: nat, k: nat)
    requires
        n >= 1,
        k <= n,
    ensures
        (n - k) * binomial(n, k) == n * binomial((n - 1) as nat, k),
    decreases n,
{
    let m = (n - 1) as nat;
    if k == n {
        lemma_binomial_beyond(m, k);
        assert((n - k) * binomial(n, k) == 0) by (nonlinear_arith)
            requires
                n - k == 0,
        ;
        assert(n * binomial(m, k) == 0) by (nonlinear_arith)
            requires
                binomial(m, k) == 0,
        ;
    } else if k == 0 {
        assert((n - k) * binomial(n, k) == n * binomial(m, k)) by (nonlinear_arith)
            requires
                k == 0,
                binomial(n, k) == 1,
                binomial(m, k) == 1,
        ;
    } else {
        let j = (k - 1) as nat;
        lemma_absorb_rest(m, j);
        lemma_absorb_rest(m, k);
        let c_mj = binomial(m, j) as int;
        let c_mk = binomial(m, k) as int;
        let c_pj = binomial((m - 1) as nat, j) as int;
        let c_pk = binomial((m - 1) as nat, k) as int;
        assert((m - j) * c_mj == m * c_pj);
        assert((m - k) * c_mk == m * c_pk);
        assert(c_mk == c_pj + c_pk);
        assert((n - k) * (c_mj + c_mk) == n * c_mk) by (nonlinear_arith)
            requires
                n == m + 1,
                k == j + 1,
                (m - j) * c_mj == m * c_pj,
                (m - k) * c_mk == m * c_pk,
                c_mk == c_pj + c_pk,
        ;
    }
}

/// One step along a row of Pascal's triangle:
/// `k * C(n, k) == (n - k + 1) * C(n, k - 1)`.
pub proof fn lemma_binomial_step(n: nat, k: nat)
    requires
        1 <= k <= n,
    ensures
        k * binomial(n, k) == (n - k + 1) * binomial(n, (k - 1) as nat),
{
    lemma_absorb(n, k);
    lemma_absorb_rest(n, (k - 1) as nat);
}

/// A row of Pascal's triangle does not fall before its middle.
pub proof fn lemma_binomial_rises(n: nat, j: nat, k: nat)
    requires
        j <= k,
        2 * k <= n,
    ensures
        binomial(n, j) <= binomial(n, k),
    decreases k - j,
{
    if j < k {
        lemma_binomial_rises(n, j, (k - 1) as nat);
        lemma_binomial_step(n, k);
        let lo = binomial(n, (k - 1) as nat) as int;
        let hi = binomial(n, k) as int;
        assert(lo <= hi) by (nonlinear_arith)
            requires
                k * hi == (n - k + 1) * lo,
                n - k + 1 >= k,
                k >= 1,
                lo >= 0,
                hi >= 0,
        ;
    }
}

/// The first factor of coefficient `k`: `C(n, k)` with the sign `(-1)^k`.
pub open spec fn thiran_lead<T: Sample>(n: nat, k: nat) -> T {
    if k % 2 == 1 {
        whole_spec::<T>(binomial(n, k)).neg_spec()
    } else {
        whole_spec::<T>(binomial(n, k))
    }
}

/// `lead` times the first `i` quotients `(d - (n - j)) / (d - (n - k) + j)`,
/// each multiplied in and divided out in turn.
pub open spec fn thiran_product<T: Sample>(d: T, n: nat, k: nat, lead: T, i: nat) -> T
    decreases i,
{
    if i == 0 {
        lead
    } else {
        let j = (i - 1) as nat;
        thiran_product(d, n, k, lead, j).mul_spec(
            d.sub_spec(whole_spec::<T>((n - j) as nat)),
        ).div_spec(d.sub_spec(whole_spec::<T>((n - k) as nat)).add_spec(whole_spec::<T>(j)))
    }
}

/// The feedback row of the Thiran filter of order `n` for the delay `d`.
pub open spec fn thiran_row<T: Sample>(d: T, n: nat) -> Seq<T> {
    Seq::new(n + 1, |k: int| thiran_product(d, n, k as nat, thiran_lead::<T>(n, k as nat), n + 1))
}

/// The row of the filter that changes nothing: one, then zeros.
pub open spec fn unit_row<T: Sample>(n: nat) -> Seq<T> {
    Seq::new(n + 1, |k: int| if k == 0 { number::<T>(1) } else { zero::<T>() })
}

/// The middle of a row of Pascal's triangle is its largest entry.
pub proof fn lemma_binomial_middle(n: nat, k: nat)
    requires
        k <= n,
    ensures
        binomial(n, k) <= binomial(n, n / 2),
{
    if 2 * k <= n {
        lemma_binomial_rises(n, k, n / 2);
    } else {
        lemma_binomial_symmetric(n, k);
        lemma_binomial_rises(n, (n - k) as nat, n / 2);
    }
}

/// `C(n, k)`, computed along the shorter side of row `n` with one exact division
/// at each step; `None` where `k` exceeds `n` or the result does not fit.
pub fn checked_combinations(n: u64, k: u64) -> (c: Option<u64>)
    ensures
        c.is_some() <==> k <= n && binomial(n as nat, k as nat) <= u64::MAX,
        c.is_some() ==> c.unwrap() == binomial(n as nat, k as nat),
{
    if k > n {
        return None;
    }
    let short: u64 = if k <= n - k {
        k
    } else {
        n - k
    };
    proof {
        lemma_binomial_symmetric(n as nat, k as nat);
    }
    let mut divisor: u64 = 1;
    let mut multiplier: u64 = n;
    let mut answer: u64 = 1;
    while divisor <= short
        invariant
            1 <= divisor <= short + 1,
            2 * short <= n,
            multiplier == n - (divisor - 1),
            answer == binomial(n as nat, (divisor - 1) as nat),
            binomial(n as nat, short as nat) == binomial(n as nat, k as nat),
        decreases short + 1 - divisor,
    {
        let ghost next = binomial(n as nat, divisor as nat);
        proof {
            lemma_binomial_step(n as nat, divisor as nat);
            lemma_binomial_rises(n as nat, divisor as nat, short as nat);
            assert(answer * multiplier <= u128::MAX) by (nonlinear_arith)
                requires
                    0 <= answer <= u64::MAX,
                    0 <= multiplier <= u64::MAX,
            ;
            let prev = binomial(n as nat, (divisor - 1) as nat);
            assert(divisor * next == (n - divisor + 1) * prev);
            assert(answer * multiplier == divisor * next) by (nonlinear_arith)
                requires
                    divisor * next == (n - divisor + 1) * prev,
                    multiplier == n - divisor + 1,
                    answer == prev,
            ;
            vstd::arithmetic::div_mod::lemma_div_multiples_vanish(next as int, divisor as int);
        }
        let wide: u128 = (answer as u128) * (multiplier as u128);
        let quotient: u128 = wide / (divisor as u128);
        if quotient > u64::MAX as u128 {
            return None;
        }
        answer = quotient as u64;
        multiplier = multiplier - 1;
        divisor = divisor + 1;
    }
    Some(answer)
}

/// `C(n, k)`, for a `k` up to `n` and a result that fits.
pub fn combinations(n: u64, k: u64) -> (c: u64)
    requires
        k <= n,
        binomial(n as nat, k as nat) <= u64::MAX,
    ensures
        c == binomial(n as nat, k as nat),
{
    checked_combinations(n, k).unwrap()
}

/// `f` is the Thiran filter of order `n` for the delay `d`, at rest.
pub open spec fn thiran_made<T: Sample>(d: T, n: usize, f: Filter<T>) -> bool {
    &&& f.n == n
    &&& f.a@ == thiran_row(d, n as nat)
    &&& f.b@ == f.a@.reverse()
    &&& f.name@ == "thirian"@
    &&& f.x@ == Seq::new((n + 1) as nat, |k: int| zero::<T>())
    &&& f.y@ == Seq::new((n + 1) as nat, |k: int| zero::<T>())
}

/// The binomial coefficients of the order `n` fit the machine's whole numbers.
pub open spec fn order_fits(n: usize) -> bool {
    n < usize::MAX && binomial(n as nat, (n / 2) as nat) <= u64::MAX
}

/// A row of `len` samples, each equal to `v`.
fn filled<T: Sample>(len: usize, v: T) -> (row: Vec<T>)
    ensures
        row@ == Seq::new(len as nat, |k: int| v),
{
    let mut row: Vec<T> = Vec::new();
    let mut k: usize = 0;
    while k < len
        invariant
            k <= len,
            row@.len() == k,
            forall|j: int| 0 <= j < k ==> row@[j] == v,
        decreases len - k,
    {
        row.push(v);
        k = k + 1;
    }
    assert(row@ =~= Seq::new(len as nat, |k: int| v));
    row
}

/// The Thiran all-pass filter of order `n` for a delay of `d` samples.
pub fn thirian<T: Sample>(d: T, n: usize) -> (f: Filter<T>)
    requires
        total::<T>(),
        n < usize::MAX,
        forall|k: nat| k <= n ==> binomial(n as nat, k) <= u64::MAX,
    ensures
        f.wf(),
        f.n == n,
        f.name@ == "thirian"@,
        f.b@ == f.a@.reverse(),
        exact::<T>() ==> thiran_made(d, n, f),
{
    let rest: T = T::from(0u8);
    let mut a: Vec<T> = filled(n + 1, rest);
    let mut b: Vec<T> = filled(n + 1, rest);
    let mut k: usize = 0;
    while k < n + 1
        invariant
            total::<T>(),
            n < usize::MAX,
            forall|k: nat| k <= n ==> binomial(n as nat, k) <= u64::MAX,
            k <= n + 1,
            a@.len() == n + 1,
            b@.len() == n + 1,
            forall|j: int| 0 <= j < k ==> b@[n - j] == a@[j],
            exact::<T>() ==> forall|j: int| 0 <= j < k ==> a@[j] == thiran_row(d, n as nat)[j],
        decreases n + 1 - k,
    {
        let mut ak: T = whole(combinations(n as u64, k as u64));
        if k % 2 == 1 {
            ak = ak.neg();
        }
        let ghost lead = ak;
        let mut i: usize = 0;
        while i < n + 1
            invariant
                total::<T>(),
                n < usize::MAX,
                k <= n,
                i <= n + 1,
                exact::<T>() ==> ak == thiran_product(d, n as nat, k as nat, lead, i as nat),
            decreases n + 1 - i,
        {
            ak = ak * (d - whole((n - i) as u64));
            ak = ak / (d - whole((n - k) as u64) + whole(i as u64));
            i = i + 1;
        }
        a[k] = ak;
        b[n - k] = ak;
        k = k + 1;
    }
    proof {
        assert(b@ =~= a@.reverse());
        if exact::<T>() {
            assert(a@ =~= thiran_row(d, n as nat));
        }
    }
    Filter::new(n, a, b, "thirian".to_owned())
}

/// The Thiran filter of order `n` for the delay `d`, or `None` where the order is
/// so large that its binomial coefficients do not fit.
pub fn checked_thirian<T: Sample>(d: T, n: usize) -> (f: Option<Filter<T>>)
    requires
        total::<T>(),
    ensures
        f.is_some() <==> order_fits(n),
        f.is_some() ==> {
            let f = f.unwrap();
            &&& f.wf()
            &&& f.n == n
            &&& f.name@ == "thirian"@
            &&& f.b@ == f.a@.reverse()
            &&& exact::<T>() ==> thiran_made(d, n, f)
        },
{
    if n == usize::MAX {
        return None;
    }
    match checked_combinations(n as u64, (n / 2) as u64) {
        None => None,
        Some(_) => {
            proof {
                assert forall|k: nat| k <= n implies binomial(n as nat, k) <= u64::MAX by {
                    lemma_binomial_middle(n as nat, k);
                }
            }
            Some(thirian(d, n))
        },
    }
}

/// `f` is the dispersion filter for the delay `d`: the second-order Thiran
/// all-pass, and the filter that changes nothing where `d` is at most one sample.
pub open spec fn disperses<T: Sample>(d: T, f: Filter<T>) -> bool {
    &&& f.n == 2
    &&& at_most(d, number::<T>(1)) ==> {
        &&& f.a@ == unit_row::<T>(2)
        &&& f.b@ == unit_row::<T>(2)
        &&& f.name@ == "thirian_dispersion"@
    }
    &&& !at_most(d, number::<T>(1)) ==> {
        &&& f.a@ == thiran_row(d, 2)
        &&& f.b@ == f.a@.reverse()
        &&& f.name@ == "thirian"@
    }
    &&& f.x@ == Seq::new(3, |k: int| zero::<T>())
    &&& f.y@ == Seq::new(3, |k: int| zero::<T>())
}

/// The second-order all-pass that delays by `d` samples, for the dispersion of a
/// stiff string; where `d` is at most one sample, the filter that changes nothing.
pub fn dispersion_for<T: Sample>(d: T) -> (f: Filter<T>)
    requires
        total::<T>(),
    ensures
        f.wf(),
        f.n == 2,
        exact::<T>() ==> disperses(d, f),
{
    let n: usize = 2;
    let one: T = T::from(1u8);
    if d <= one {
        let rest: T = T::from(0u8);
        let mut a1: Vec<T> = filled(n + 1, rest);
        let mut a2: Vec<T> = filled(n + 1, rest);
        a1[0] = one;
        a2[0] = one;
        proof {
            if exact::<T>() {
                assert(a1@ =~= unit_row::<T>(2));
                assert(a2@ =~= unit_row::<T>(2));
            }
        }
        Filter::new(n, a1, a2, "thirian_dispersion".to_owned())
    } else {
        proof {
            assert forall|k: nat| k <= 2 implies binomial(2, k) <= u64::MAX by {
                reveal_with_fuel(binomial, 4);
            }
        }
        thirian(d, n)
    }
}

/// The five numbers of the regression for the dispersion delay: one set for a
/// chain of four filters, another for any other chain.
pub struct Regression<T> {
    /// `cd = exp(c1 ln b + c2)`.
    pub c1: T,
    pub c2: T,
    /// `kd = exp(k1 ln^2 b + k2 ln b + k3)`.
    pub k1: T,
    pub k2: T,
    pub k3: T,
}

/// The regression for a chain of `m` filters.
pub open spec fn regression<T: Sample>(m: usize) -> Regression<T> {
    if m == 4 {
        Regression {
            c1: ratio::<T>(69618, 1000000),
            c2: ratio::<T>(20427, 10000),
            k1: ratio::<T>(50469, 100000000).neg_spec(),
            k2: ratio::<T>(64264, 10000000).neg_spec(),
            k3: ratio::<T>(28743, 10000).neg_spec(),
        }
    } else {
        Regression {
            c1: ratio::<T>(71089, 1000000),
            c2: ratio::<T>(21074, 10000),
            k1: ratio::<T>(26580, 10000000).neg_spec(),
            k2: ratio::<T>(14811, 1000000).neg_spec(),
            k3: ratio::<T>(29018, 10000).neg_spec(),
        }
    }
}

/// What the caller's logarithm and exponential returned on the way to a
/// dispersion delay.
pub struct DispersionTrace<T> {
    /// `ln b`.
    pub logb: T,
    /// `exp(k1 ln^2 b + k2 ln b + k3)`.
    pub kd: T,
    /// `exp(c1 ln b + c2)`.
    pub cd: T,
    /// `ln(f halfstep / 27.5)`.
    pub log_key: T,
    /// `ln halfstep`.
    pub log_half: T,
}

/// `d` is the dispersion delay `exp(cd - ikey kd)` that follows from the values
/// in `t`, where `ikey` is the key number of the frequency `f`, and each of those
/// values is one that the caller's function can return where it was asked.
pub open spec fn db_traced<T: Sample, L: Fn(T) -> T, E: Fn(T) -> T>(
    b: T,
    f: T,
    m: usize,
    halfstep: T,
    ln: &L,
    exp: &E,
    t: DispersionTrace<T>,
    d: T,
) -> bool {
    let r = regression::<T>(m);
    let ikey = t.log_key.div_spec(t.log_half);
    &&& ln.ensures((b,), t.logb)
    &&& exp.ensures(
        (r.k1.mul_spec(t.logb).mul_spec(t.logb).add_spec(r.k2.mul_spec(t.logb)).add_spec(r.k3),),
        t.kd,
    )
    &&& exp.ensures((r.c1.mul_spec(t.logb).add_spec(r.c2),), t.cd)
    &&& ln.ensures((f.mul_spec(halfstep).div_spec(ratio::<T>(55, 2)),), t.log_key)
    &&& ln.ensures((halfstep,), t.log_half)
    &&& exp.ensures((t.cd.sub_spec(ikey.mul_spec(t.kd)),), d)
}

/// `filter` is a dispersion filter of a string of inharmonicity `b` at the
/// frequency `f`, for a delay that the caller's logarithm and exponential can
/// give.
pub open spec fn dispersed<T: Sample, L: Fn(T) -> T, E: Fn(T) -> T>(
    b: T,
    f: T,
    m: usize,
    halfstep: T,
    ln: &L,
    exp: &E,
    filter: Filter<T>,
) -> bool {
    exists|t: DispersionTrace<T>, d: T|
        {
            &&& #[trigger] db_traced(b, f, m, halfstep, ln, exp, t, d)
            &&& disperses(d, filter)
        }
}

/// The regression for a chain of `m` filters.
fn regression_for<T: Sample>(m: usize) -> (r: Regression<T>)
    requires
        total::<T>(),
    ensures
        exact::<T>() ==> r == regression::<T>(m),
{
    if m == 4 {
        Regression {
            c1: fraction::<T>(69618, 1000000),
            c2: fraction::<T>(20427, 10000),
            k1: fraction::<T>(50469, 100000000).neg(),
            k2: fraction::<T>(64264, 10000000).neg(),
            k3: fraction::<T>(28743, 10000).neg(),
        }
    } else {
        Regression {
            c1: fraction::<T>(71089, 1000000),
            c2: fraction::<T>(21074, 10000),
            k1: fraction::<T>(26580, 10000000).neg(),
            k2: fraction::<T>(14811, 1000000).neg(),
            k3: fraction::<T>(29018, 10000).neg(),
        }
    }
}

/// The delay that each dispersion filter of a string must have, for the
/// inharmonicity `b` of the string, its frequency `f` and a chain of `m`
/// filters. `halfstep` is the frequency ratio of a half step, `ln` the natural
/// logarithm and `exp` its inverse.
pub fn db<T: Sample, L: Fn(T) -> T, E: Fn(T) -> T>(
    b: T,
    f: T,
    m: usize,
    halfstep: T,
    ln: &L,
    exp: &E,
) -> (d: T)
    requires
        total::<T>(),
        forall|x: T| ln.requires((x,)),
        forall|x: T| exp.requires((x,)),
    ensures
        exact::<T>() ==> exists|t: DispersionTrace<T>| #[trigger]
            db_traced(b, f, m, halfstep, ln, exp, t, d),
{
    let r: Regression<T> = regression_for(m);
    let logb: T = ln(b);
    let kd: T = exp(r.k1 * logb * logb + r.k2 * logb + r.k3);
    let cd: T = exp(r.c1 * logb + r.c2);
    let log_key: T = ln(f * halfstep / fraction::<T>(55, 2));
    let log_half: T = ln(halfstep);
    let ikey: T = log_key / log_half;
    let d: T = exp(cd - ikey * kd);
    proof {
        if exact::<T>() {
            let t = DispersionTrace { logb, kd, cd, log_key, log_half };
            assert(db_traced(b, f, m, halfstep, ln, exp, t, d));
        }
    }
    d
}

/// The dispersion filter of a string of inharmonicity `b` and frequency `f`, for
/// a chain of `m` filters.
pub fn thirian_dispersion<T: Sample, L: Fn(T) -> T, E: Fn(T) -> T>(
    b: T,
    f: T,
    m: usize,
    halfstep: T,
    ln: &L,
    exp: &E,
) -> (filter: Filter<T>)
    requires
        total::<T>(),
        forall|x: T| ln.requires((x,)),
        forall|x: T| exp.requires((x,)),
    ensures
        filter.wf(),
        filter.n == 2,
        exact::<T>() ==> dispersed(b, f, m, halfstep, ln, exp, filter),
{
    let d: T = db(b, f, m, halfstep, ln, exp);
    dispersion_for(d)
}

} // verus!
