//! A linear difference-equation filter in direct form.
//!
//! The filter keeps the last `n + 1` inputs and outputs. Each call takes one
//! input sample and gives the output of
//! `H(z) = (b0 + b1 z^-1 + ..) / (a0 + a1 z^-1 + ..)`.

use crate::ring_buffer::{pushed, RingBuffer};
use crate::sample::{exact, total, zero, Sample};
use vstd::prelude::*;
use vstd::std_specs::ops::{AddSpec, DivSpec, MulSpec, SubSpec};

verus! {

/// `acc` plus the first `k` products `h[i] * c[i]`, added in that order.
pub open spec fn tap_sum<T: Sample>(acc: T, h: Seq<T>, c: Seq<T>, k: nat) -> T
    decreases k,
{
    if k == 0 {
        acc
    } else {
        tap_sum(acc, h, c, (k - 1) as nat).add_spec(h[k - 1].mul_spec(c[k - 1]))
    }
}

/// `acc` minus the first `k` products `h[i] * c[i + 1]`, taken away in that order.
pub open spec fn tap_diff<T: Sample>(acc: T, h: Seq<T>, c: Seq<T>, k: nat) -> T
    decreases k,
{
    if k == 0 {
        acc
    } else {
        tap_diff(acc, h, c, (k - 1) as nat).sub_spec(h[k - 1].mul_spec(c[k as int]))
    }
}

/// The output of the difference equation with coefficients `a` and `b` of order `n`,
/// for the input history `xs` (the newest input first) and the output history `ys`.
pub open spec fn direct_form<T: Sample>(n: nat, a: Seq<T>, b: Seq<T>, xs: Seq<T>, ys: Seq<T>) -> T {
    tap_diff(tap_sum(zero::<T>(), xs, b, n + 1), ys, a, n).div_spec(a[0])
}

/// A filter of order `n` with its coefficients and its history.
pub struct Filter<T> {
    /// The order of the filter.
    pub n: usize,
    /// The feedback row; `a[0]` divides the output.
    pub a: Vec<T>,
    /// The feed-forward row.
    pub b: Vec<T>,
    /// What the filter is for.
    pub name: String,
    /// The last `n + 1` inputs, the newest first.
    pub x: RingBuffer<T>,
    /// The last `n + 1` outputs, the newest first.
    pub y: RingBuffer<T>,
}

impl<T: Sample> Filter<T> {
    /// Both coefficient rows and both histories hold `n + 1` samples.
    pub open spec fn wf(&self) -> bool {
        &&& self.a@.len() == self.n + 1
        &&& self.b@.len() == self.n + 1
        &&& self.x@.len() == self.n + 1
        &&& self.y@.len() == self.n + 1
    }

    /// What the filter answers to `in_value` in its present state.
    pub open spec fn response(&self, in_value: T) -> T {
        direct_form(self.n as nat, self.a@, self.b@, pushed(self.x@, in_value), self.y@)
    }

    /// `after` is this filter once it took `in_value`: the same coefficients, and
    /// both histories one sample on.
    pub open spec fn fed(&self, in_value: T, after: Filter<T>) -> bool {
        &&& after.wf()
        &&& after.n == self.n
        &&& after.a == self.a
        &&& after.b == self.b
        &&& after.name == self.name
        &&& after.x@ == pushed(self.x@, in_value)
        &&& (exact::<T>() ==> after.y@ == pushed(self.y@, self.response(in_value)))
    }

    /// A filter at rest with feedback row `a` and feed-forward row `b`.
    pub fn new(n: usize, a: Vec<T>, b: Vec<T>, name: String) -> (f: Filter<T>)
        requires
            a@.len() == n + 1,
            b@.len() == n + 1,
        ensures
            f.wf(),
            f.n == n,
            f.a == a,
            f.b == b,
            f.name == name,
            exact::<T>() ==> f.x@ == Seq::new((n + 1) as nat, |k: int| zero::<T>()),
            exact::<T>() ==> f.y@ == Seq::new((n + 1) as nat, |k: int| zero::<T>()),
    {
        let rest: T = T::from(0u8);
        let len: usize = a.len();
        Filter { n, a, b, name, x: RingBuffer::new(len, rest), y: RingBuffer::new(len, rest) }
    }

    /// A filter at rest with the rows `a` and `b`, or none where a row does not
    /// hold `n + 1` coefficients.
    pub fn try_new(n: usize, a: Vec<T>, b: Vec<T>, name: String) -> (f: Option<Filter<T>>)
        ensures
            f.is_some() <==> a@.len() == n + 1 && b@.len() == n + 1,
            f.is_some() ==> {
                let f = f.unwrap();
                &&& f.wf()
                &&& f.n == n
                &&& f.a == a
                &&& f.b == b
                &&& f.name == name
                &&& exact::<T>() ==> f.x@ == Seq::new((n + 1) as nat, |k: int| zero::<T>())
                &&& exact::<T>() ==> f.y@ == Seq::new((n + 1) as nat, |k: int| zero::<T>())
            },
    {
        let rows: (usize, usize) = (a.len(), b.len());
        if n < usize::MAX && rows.0 == n + 1 && rows.1 == n + 1 {
            Some(Filter::new(n, a, b, name))
        } else {
            None
        }
    }

    /// The sums `B(e^{jw})` and `A(e^{jw})` of the frequency response, each as real
    /// and imaginary part, where `cosines[k]` and `sines[k]` are `cos(k w)` and
    /// `sin(k w)`.
    pub fn response_sums(&self, cosines: &Vec<T>, sines: &Vec<T>) -> (h: ((T, T), (T, T)))
        requires
            self.wf(),
            cosines@.len() == self.n + 1,
            sines@.len() == self.n + 1,
            total::<T>(),
        ensures
            exact::<T>() ==> {
                let n = (self.n + 1) as nat;
                &&& h.0.0 == tap_sum(zero::<T>(), cosines@, self.b@, n)
                &&& h.0.1 == tap_sum(zero::<T>(), sines@, self.b@, n)
                &&& h.1.0 == tap_sum(zero::<T>(), cosines@, self.a@, n)
                &&& h.1.1 == tap_sum(zero::<T>(), sines@, self.a@, n)
            },
    {
        let rest: T = T::from(0u8);
        let mut hn: (T, T) = (rest, rest);
        let mut hd: (T, T) = (rest, rest);
        let taps: usize = self.b.len();
        let mut k: usize = 0;
        while k < taps
            invariant
                total::<T>(),
                self.wf(),
                taps == self.n + 1,
                cosines@.len() == self.n + 1,
                sines@.len() == self.n + 1,
                k <= self.n + 1,
                exact::<T>() ==> {
                    &&& hn.0 == tap_sum(zero::<T>(), cosines@, self.b@, k as nat)
                    &&& hn.1 == tap_sum(zero::<T>(), sines@, self.b@, k as nat)
                },
            decreases taps - k,
        {
            hn = (hn.0 + cosines[k] * self.b[k], hn.1 + sines[k] * self.b[k]);
            k = k + 1;
        }
        let mut k: usize = 0;
        while k < taps
            invariant
                total::<T>(),
                self.wf(),
                taps == self.n + 1,
                cosines@.len() == self.n + 1,
                sines@.len() == self.n + 1,
                k <= self.n + 1,
                exact::<T>() ==> {
                    &&& hd.0 == tap_sum(zero::<T>(), cosines@, self.a@, k as nat)
                    &&& hd.1 == tap_sum(zero::<T>(), sines@, self.a@, k as nat)
                },
            decreases taps - k,
        {
            hd = (hd.0 + cosines[k] * self.a[k], hd.1 + sines[k] * self.a[k]);
            k = k + 1;
        }
        (hn, hd)
    }

    /// Takes one input sample and returns the output sample that belongs to it.
    pub fn filter(&mut self, in_value: T) -> (out_value: T)
        requires
            old(self).wf(),
            total::<T>(),
        ensures
            old(self).fed(in_value, *final(self)),
            final(self).y@ == pushed(old(self).y@, out_value),
            exact::<T>() ==> out_value == old(self).response(in_value),
    {
        let mut out_value: T = T::from(0u8);
        self.x.push(in_value);
        let ghost xs = self.x@;
        let ghost ys = self.y@;
        let mut xit = self.x.iter();
        let mut k: usize = 0;
        while k < self.b.len()
            invariant
                total::<T>(),
                k <= self.b@.len() == self.n + 1,
                xit.samples() == xs,
                xs.len() == self.n + 1,
                xit.position() == k,
                exact::<T>() ==> out_value == tap_sum(zero::<T>(), xs, self.b@, k as nat),
            decreases self.b@.len() - k,
        {
            let x_: T = *xit.next().unwrap();
            out_value = out_value + x_ * self.b[k];
            k = k + 1;
        }
        let ghost fed = out_value;
        let mut yit = self.y.iter();
        let mut k: usize = 0;
        while k < self.n
            invariant
                total::<T>(),
                self.a@.len() == self.n + 1,
                k <= self.n,
                yit.samples() == ys,
                ys.len() == self.n + 1,
                yit.position() == k,
                exact::<T>() ==> out_value == tap_diff(fed, ys, self.a@, k as nat),
            decreases self.n - k,
        {
            let y_: T = *yit.next().unwrap();
            out_value = out_value - y_ * self.a[k + 1];
            k = k + 1;
        }
        out_value = out_value / self.a[0];
        self.y.push(out_value);
        out_value
    }
}

/// The arithmetic of `T` is that of a field as far as a filter needs it: zero
/// is neutral, and multiplying and dividing go through a sum and a product.
#[verifier::opaque]
pub open spec fn field_laws<T: Sample>() -> bool {
    &&& forall|a: T| #[trigger] zero::<T>().add_spec(a) == a
    &&& forall|a: T| #[trigger] a.add_spec(zero::<T>()) == a
    &&& forall|a: T| #[trigger] a.sub_spec(zero::<T>()) == a
    &&& forall|a: T| #[trigger] zero::<T>().mul_spec(a) == zero::<T>()
    &&& forall|a: T, b: T, c: T| #[trigger]
        a.add_spec(b).mul_spec(c) == a.mul_spec(c).add_spec(b.mul_spec(c))
    &&& forall|a: T, b: T, c: T| #[trigger] a.mul_spec(b).mul_spec(c) == a.mul_spec(b.mul_spec(c))
    &&& forall|a: T, b: T, c: T| #[trigger]
        a.add_spec(b).div_spec(c) == a.div_spec(c).add_spec(b.div_spec(c))
    &&& forall|a: T, b: T, c: T| #[trigger] a.mul_spec(b).div_spec(c) == a.mul_spec(b.div_spec(c))
}

/// A history of `len` samples at rest.
pub open spec fn at_rest<T: Sample>(len: nat) -> Seq<T> {
    Seq::new(len, |k: int| zero::<T>())
}

/// In a history at rest that took the one input `x`, only the first tap counts.
proof fn lemma_first_tap<T: Sample>(x: T, b: Seq<T>, k: nat)
    requires
        field_laws::<T>(),
        1 <= k <= b.len(),
    ensures
        tap_sum(zero::<T>(), pushed(at_rest::<T>(b.len()), x), b, k) == x.mul_spec(b[0]),
    decreases k,
{
    reveal(field_laws);
    let xs = pushed(at_rest::<T>(b.len()), x);
    if k == 1 {
        assert(tap_sum(zero::<T>(), xs, b, 0) == zero::<T>());
        assert(xs[0] == x);
    } else {
        lemma_first_tap(x, b, (k - 1) as nat);
        assert(xs[k - 1] == zero::<T>());
    }
}

/// Outputs at rest take nothing away.
proof fn lemma_no_feedback<T: Sample>(v: T, a: Seq<T>, k: nat)
    requires
        field_laws::<T>(),
        k < a.len(),
    ensures
        tap_diff(v, at_rest::<T>(a.len()), a, k) == v,
    decreases k,
{
    reveal(field_laws);
    if k > 0 {
        lemma_no_feedback(v, a, (k - 1) as nat);
    }
}

/// A filter at rest answers with `x * b0 / a0`.
pub proof fn lemma_response_at_rest<T: Sample>(f: Filter<T>, x: T)
    requires
        field_laws::<T>(),
        f.wf(),
        f.x@ == at_rest::<T>((f.n + 1) as nat),
        f.y@ == at_rest::<T>((f.n + 1) as nat),
    ensures
        f.response(x) == x.mul_spec(f.b@[0]).div_spec(f.a@[0]),
{
    lemma_first_tap(x, f.b@, (f.n + 1) as nat);
    lemma_no_feedback(x.mul_spec(f.b@[0]), f.a@, f.n as nat);
}

/// Superposition: a filter at rest answers to the weighted sum of two inputs
/// with the weighted sum of its answers to each, wherever the samples'
/// arithmetic is that of a field.
pub proof fn lemma_superposition<T: Sample>(f: Filter<T>, p: T, x1: T, q: T, x2: T)
    requires
        field_laws::<T>(),
        f.wf(),
        f.x@ == at_rest::<T>((f.n + 1) as nat),
        f.y@ == at_rest::<T>((f.n + 1) as nat),
    ensures
        f.response(p.mul_spec(x1).add_spec(q.mul_spec(x2))) == p.mul_spec(f.response(x1)).add_spec(
            q.mul_spec(f.response(x2)),
        ),
{
    reveal(field_laws);
    let b0 = f.b@[0];
    let a0 = f.a@[0];
    let u = p.mul_spec(x1);
    let v = q.mul_spec(x2);
    lemma_response_at_rest(f, u.add_spec(v));
    lemma_response_at_rest(f, x1);
    lemma_response_at_rest(f, x2);
    assert(u.add_spec(v).mul_spec(b0) == u.mul_spec(b0).add_spec(v.mul_spec(b0)));
    assert(u.mul_spec(b0) == p.mul_spec(x1.mul_spec(b0)));
    assert(v.mul_spec(b0) == q.mul_spec(x2.mul_spec(b0)));
    let s = p.mul_spec(x1.mul_spec(b0));
    let t = q.mul_spec(x2.mul_spec(b0));
    assert(s.add_spec(t).div_spec(a0) == s.div_spec(a0).add_spec(t.div_spec(a0)));
    assert(s.div_spec(a0) == p.mul_spec(x1.mul_spec(b0).div_spec(a0)));
    assert(t.div_spec(a0) == q.mul_spec(x2.mul_spec(b0).div_spec(a0)));
}

/// The weighted sum `p u + q v`.
pub open spec fn mix<T: Sample>(p: T, u: T, q: T, v: T) -> T {
    p.mul_spec(u).add_spec(q.mul_spec(v))
}

/// The weighted sum of two signals, sample by sample.
pub open spec fn mixed<T: Sample>(p: T, us: Seq<T>, q: T, vs: Seq<T>) -> Seq<T> {
    Seq::new(us.len(), |i: int| mix(p, us[i], q, vs[i]))
}

/// The input history of a filter of order `n` that started at rest and took the
/// first `k` samples of `inputs`.
pub open spec fn inputs_after<T: Sample>(n: nat, inputs: Seq<T>, k: nat) -> Seq<T>
    decreases k,
{
    if k == 0 {
        at_rest::<T>(n + 1)
    } else {
        pushed(inputs_after(n, inputs, (k - 1) as nat), inputs[k - 1])
    }
}

/// The output history of the filter with the rows `a` and `b` that started at
/// rest and took the first `k` samples of `inputs`.
pub open spec fn outputs_after<T: Sample>(
    n: nat,
    a: Seq<T>,
    b: Seq<T>,
    inputs: Seq<T>,
    k: nat,
) -> Seq<T>
    decreases k,
{
    if k == 0 {
        at_rest::<T>(n + 1)
    } else {
        let ys = outputs_after(n, a, b, inputs, (k - 1) as nat);
        pushed(ys, direct_form(n, a, b, inputs_after(n, inputs, k), ys))
    }
}

/// A filter that has taken `k` samples of `inputs` since it was at rest holds,
/// after one more call, the histories of `k + 1` samples.
pub proof fn lemma_filter_follows<T: Sample>(f: Filter<T>, inputs: Seq<T>, k: nat, post: Filter<T>)
    requires
        exact::<T>(),
        k < inputs.len(),
        f.x@ == inputs_after(f.n as nat, inputs, k),
        f.y@ == outputs_after(f.n as nat, f.a@, f.b@, inputs, k),
        f.fed(inputs[k as int], post),
    ensures
        post.x@ == inputs_after(f.n as nat, inputs, k + 1),
        post.y@ == outputs_after(f.n as nat, f.a@, f.b@, inputs, k + 1),
        post.y@[0] == f.response(inputs[k as int]),
{
}

/// The laws of a field that carry a weighted sum through a filter.
#[verifier::opaque]
pub open spec fn mixing_laws<T: Sample>() -> bool {
    &&& field_laws::<T>()
    &&& forall|a: T| #[trigger] a.mul_spec(zero::<T>()) == zero::<T>()
    &&& forall|a: T, b: T, c: T| #[trigger]
        a.mul_spec(b.add_spec(c)) == a.mul_spec(b).add_spec(a.mul_spec(c))
    &&& forall|a: T, b: T, c: T| #[trigger]
        a.mul_spec(b.sub_spec(c)) == a.mul_spec(b).sub_spec(a.mul_spec(c))
    &&& forall|a: T, b: T, c: T, d: T| #[trigger]
        a.add_spec(b).add_spec(c.add_spec(d)) == a.add_spec(c).add_spec(b.add_spec(d))
    &&& forall|a: T, b: T, c: T, d: T| #[trigger]
        a.add_spec(b).sub_spec(c.add_spec(d)) == a.sub_spec(c).add_spec(b.sub_spec(d))
}

/// A weighted sum of histories has the weighted sum of their feed-forward sums.
proof fn lemma_tap_sum_mixed<T: Sample>(p: T, h1: Seq<T>, q: T, h2: Seq<T>, c: Seq<T>, k: nat)
    requires
        mixing_laws::<T>(),
        h1.len() == h2.len(),
        k <= h1.len(),
        k <= c.len(),
    ensures
        tap_sum(zero::<T>(), mixed(p, h1, q, h2), c, k) == mix(
            p,
            tap_sum(zero::<T>(), h1, c, k),
            q,
            tap_sum(zero::<T>(), h2, c, k),
        ),
    decreases k,
{
    reveal(field_laws);
    reveal(mixing_laws);
    let z = zero::<T>();
    if k == 0 {
        assert(p.mul_spec(z) == z);
        assert(q.mul_spec(z) == z);
        assert(z.add_spec(z) == z);
    } else {
        let j = (k - 1) as nat;
        lemma_tap_sum_mixed(p, h1, q, h2, c, j);
        let s1 = tap_sum(z, h1, c, j);
        let s2 = tap_sum(z, h2, c, j);
        let u = h1[j as int];
        let v = h2[j as int];
        let w = c[j as int];
        assert(mixed(p, h1, q, h2)[j as int] == mix(p, u, q, v));
        assert(mix(p, u, q, v).mul_spec(w) == p.mul_spec(u).mul_spec(w).add_spec(
            q.mul_spec(v).mul_spec(w),
        ));
        assert(p.mul_spec(u).mul_spec(w) == p.mul_spec(u.mul_spec(w)));
        assert(q.mul_spec(v).mul_spec(w) == q.mul_spec(v.mul_spec(w)));
        let pu = p.mul_spec(u.mul_spec(w));
        let qv = q.mul_spec(v.mul_spec(w));
        assert(p.mul_spec(s1).add_spec(q.mul_spec(s2)).add_spec(pu.add_spec(qv)) == p.mul_spec(
            s1,
        ).add_spec(pu).add_spec(q.mul_spec(s2).add_spec(qv)));
        assert(p.mul_spec(s1.add_spec(u.mul_spec(w))) == p.mul_spec(s1).add_spec(pu));
        assert(q.mul_spec(s2.add_spec(v.mul_spec(w))) == q.mul_spec(s2).add_spec(qv));
    }
}

/// A weighted sum of histories takes away the weighted sum of their feedback.
proof fn lemma_tap_diff_mixed<T: Sample>(
    p: T,
    acc1: T,
    h1: Seq<T>,
    q: T,
    acc2: T,
    h2: Seq<T>,
    c: Seq<T>,
    k: nat,
)
    requires
        mixing_laws::<T>(),
        h1.len() == h2.len(),
        k <= h1.len(),
        k < c.len(),
    ensures
        tap_diff(mix(p, acc1, q, acc2), mixed(p, h1, q, h2), c, k) == mix(
            p,
            tap_diff(acc1, h1, c, k),
            q,
            tap_diff(acc2, h2, c, k),
        ),
    decreases k,
{
    reveal(field_laws);
    reveal(mixing_laws);
    if k > 0 {
        let j = (k - 1) as nat;
        lemma_tap_diff_mixed(p, acc1, h1, q, acc2, h2, c, j);
        let d1 = tap_diff(acc1, h1, c, j);
        let d2 = tap_diff(acc2, h2, c, j);
        let u = h1[j as int];
        let v = h2[j as int];
        let w = c[k as int];
        assert(mixed(p, h1, q, h2)[j as int] == mix(p, u, q, v));
        assert(mix(p, u, q, v).mul_spec(w) == p.mul_spec(u).mul_spec(w).add_spec(
            q.mul_spec(v).mul_spec(w),
        ));
        assert(p.mul_spec(u).mul_spec(w) == p.mul_spec(u.mul_spec(w)));
        assert(q.mul_spec(v).mul_spec(w) == q.mul_spec(v.mul_spec(w)));
        let pu = p.mul_spec(u.mul_spec(w));
        let qv = q.mul_spec(v.mul_spec(w));
        assert(p.mul_spec(d1).add_spec(q.mul_spec(d2)).sub_spec(pu.add_spec(qv)) == p.mul_spec(
            d1,
        ).sub_spec(pu).add_spec(q.mul_spec(d2).sub_spec(qv)));
        assert(p.mul_spec(d1.sub_spec(u.mul_spec(w))) == p.mul_spec(d1).sub_spec(pu));
        assert(q.mul_spec(d2.sub_spec(v.mul_spec(w))) == q.mul_spec(d2).sub_spec(qv));
    }
}

/// The difference equation is linear in its two histories.
pub proof fn lemma_direct_form_mixed<T: Sample>(
    n: nat,
    a: Seq<T>,
    b: Seq<T>,
    p: T,
    xs1: Seq<T>,
    ys1: Seq<T>,
    q: T,
    xs2: Seq<T>,
    ys2: Seq<T>,
)
    requires
        mixing_laws::<T>(),
        a.len() == n + 1,
        b.len() == n + 1,
        xs1.len() == n + 1,
        xs2.len() == n + 1,
        ys1.len() == n + 1,
        ys2.len() == n + 1,
    ensures
        direct_form(n, a, b, mixed(p, xs1, q, xs2), mixed(p, ys1, q, ys2)) == mix(
            p,
            direct_form(n, a, b, xs1, ys1),
            q,
            direct_form(n, a, b, xs2, ys2),
        ),
{
    reveal(field_laws);
    reveal(mixing_laws);
    let z = zero::<T>();
    lemma_tap_sum_mixed(p, xs1, q, xs2, b, n + 1);
    let f1 = tap_sum(z, xs1, b, n + 1);
    let f2 = tap_sum(z, xs2, b, n + 1);
    lemma_tap_diff_mixed(p, f1, ys1, q, f2, ys2, a, n);
    let d1 = tap_diff(f1, ys1, a, n);
    let d2 = tap_diff(f2, ys2, a, n);
    let a0 = a[0];
    assert(p.mul_spec(d1).add_spec(q.mul_spec(d2)).div_spec(a0) == p.mul_spec(d1).div_spec(
        a0,
    ).add_spec(q.mul_spec(d2).div_spec(a0)));
    assert(p.mul_spec(d1).div_spec(a0) == p.mul_spec(d1.div_spec(a0)));
    assert(q.mul_spec(d2).div_spec(a0) == q.mul_spec(d2.div_spec(a0)));
}

/// A weighted sum of two histories at rest is a history at rest.
proof fn lemma_rest_mixed<T: Sample>(p: T, q: T, len: nat)
    requires
        mixing_laws::<T>(),
    ensures
        at_rest::<T>(len) == mixed(p, at_rest::<T>(len), q, at_rest::<T>(len)),
{
    reveal(field_laws);
    reveal(mixing_laws);
    let z = zero::<T>();
    assert(p.mul_spec(z) == z);
    assert(q.mul_spec(z) == z);
    assert(z.add_spec(z) == z);
    assert(at_rest::<T>(len) =~= mixed(p, at_rest::<T>(len), q, at_rest::<T>(len)));
}

/// Superposition over time: a filter that starts at rest answers to the
/// weighted sum of two signals with the weighted sum of its answers to each,
/// sample after sample, wherever the samples' arithmetic is that of a field.
pub proof fn lemma_linear<T: Sample>(
    n: nat,
    a: Seq<T>,
    b: Seq<T>,
    p: T,
    in1: Seq<T>,
    q: T,
    in2: Seq<T>,
    k: nat,
)
    requires
        mixing_laws::<T>(),
        a.len() == n + 1,
        b.len() == n + 1,
        in1.len() == in2.len(),
        k <= in1.len(),
    ensures
        inputs_after(n, mixed(p, in1, q, in2), k) == mixed(
            p,
            inputs_after(n, in1, k),
            q,
            inputs_after(n, in2, k),
        ),
        outputs_after(n, a, b, mixed(p, in1, q, in2), k) == mixed(
            p,
            outputs_after(n, a, b, in1, k),
            q,
            outputs_after(n, a, b, in2, k),
        ),
        inputs_after(n, in1, k).len() == n + 1,
        inputs_after(n, in2, k).len() == n + 1,
        outputs_after(n, a, b, in1, k).len() == n + 1,
        outputs_after(n, a, b, in2, k).len() == n + 1,
    decreases k,
{
    let in3 = mixed(p, in1, q, in2);
    if k == 0 {
        lemma_rest_mixed(p, q, n + 1);
    } else {
        let j = (k - 1) as nat;
        lemma_linear(n, a, b, p, in1, q, in2, j);
        let x1 = inputs_after(n, in1, j);
        let x2 = inputs_after(n, in2, j);
        let y1 = outputs_after(n, a, b, in1, j);
        let y2 = outputs_after(n, a, b, in2, j);
        let nx1 = pushed(x1, in1[j as int]);
        let nx2 = pushed(x2, in2[j as int]);
        assert(in3[j as int] == mix(p, in1[j as int], q, in2[j as int]));
        assert(pushed(mixed(p, x1, q, x2), in3[j as int]) =~= mixed(p, nx1, q, nx2));
        lemma_direct_form_mixed(n, a, b, p, nx1, y1, q, nx2, y2);
        let o1 = direct_form(n, a, b, nx1, y1);
        let o2 = direct_form(n, a, b, nx2, y2);
        assert(pushed(mixed(p, y1, q, y2), mix(p, o1, q, o2)) =~= mixed(
            p,
            pushed(y1, o1),
            q,
            pushed(y2, o2),
        ));
    }
}

} // verus!
