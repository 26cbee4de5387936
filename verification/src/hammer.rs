//! The felt hammer: a mass on a nonlinear spring with hysteresis.
//!
//! While the hammer touches the string, the felt is pressed together by `x` and
//! pushes back with `K * (x^p + alpha * d(x^p)/dt)`. The force can only push:
//! a negative value is cut to zero. Each sample the force is found by five
//! passes of a fixed-point relaxation, never more and never fewer.

use crate::sample::{exact, greater, less, number, total, zero, Sample};
use vstd::prelude::*;
use vstd::std_specs::ops::{AddSpec, DivSpec, MulSpec, NegSpec, SubSpec};

verus! {

/// How many passes the relaxation makes for each sample.
pub const PASSES: usize = 5;

/// The hammer's state and its fixed physical parameters.
pub struct Hammer<T> {
    /// The time between two samples.
    pub dt: T,
    /// The sample rate.
    pub dti: T,
    /// The compression of the felt; the felt is pressed where it is positive.
    pub x: T,
    /// The velocity of the hammer.
    pub v: T,
    /// The acceleration of the hammer.
    pub a: T,
    /// The velocity at which the hammer was thrown.
    pub v0: T,
    /// One over the mass of the hammer.
    pub mi: T,
    /// The stiffness of the felt.
    pub k: T,
    /// The exponent of the felt.
    pub p: T,
    /// The sample rate.
    pub fs: T,
    /// The force on the string.
    pub f: T,
    /// The felt term `x^p` of the last sample.
    pub upprev: T,
    /// The hysteresis of the felt.
    pub alpha: T,
    /// One over twice the impedance of the string.
    pub z2i: T,
}

/// What one pass of the relaxation leaves behind.
pub struct Pass<T> {
    /// The force.
    pub f: T,
    /// The acceleration of the hammer.
    pub a: T,
    /// The velocity of the hammer after this sample.
    pub v1: T,
    /// The compression of the felt after this sample.
    pub x1: T,
    /// The felt term `x1^p`.
    pub up: T,
    /// The rate at which the felt term changes.
    pub dupdt: T,
}

/// The force of the felt: `raw`, or zero where `raw` is negative.
pub open spec fn pushing<T: Sample>(raw: T) -> T {
    if less(raw, zero::<T>()) {
        zero::<T>()
    } else {
        raw
    }
}

/// The pressed felt's term `x^p`, given the power `xp`: zero unless the felt is pressed.
pub open spec fn felt<T: Sample>(x: T, xp: T) -> T {
    if greater(x, zero::<T>()) {
        xp
    } else {
        zero::<T>()
    }
}

impl<T: Sample> Hammer<T> {
    /// The rate at which the felt term changed since the last sample.
    pub open spec fn rate(&self, up: T) -> T {
        up.sub_spec(self.upprev).mul_spec(self.dti)
    }

    /// One pass: from the felt term `up` and its rate to the force, the hammer's
    /// next velocity and compression, and the felt term that follows from them,
    /// where `xp` is the power of the new compression.
    pub open spec fn pass(&self, vin: T, up: T, dupdt: T, xp: T) -> Pass<T> {
        let f = pushing(self.k.mul_spec(up.add_spec(self.alpha.mul_spec(dupdt))));
        let a = f.neg_spec().mul_spec(self.mi);
        let v1 = self.v.add_spec(a.mul_spec(self.dt));
        let x1 = self.x.add_spec(
            v1.sub_spec(vin.add_spec(f.mul_spec(self.z2i))).mul_spec(self.dt),
        );
        let up1 = felt(x1, xp);
        Pass { f, a, v1, x1, up: up1, dupdt: self.rate(up1) }
    }

    /// The relaxation after `i` passes, where `xps[0]` is the power of the present
    /// compression and `xps[j]` the power of the compression that pass `j` found.
    pub open spec fn relaxed(&self, vin: T, xps: Seq<T>, i: nat) -> Pass<T>
        decreases i,
    {
        if i == 0 {
            let up = felt(self.x, xps[0]);
            Pass {
                f: self.f,
                a: self.a,
                v1: zero::<T>(),
                x1: self.x,
                up,
                dupdt: self.rate(up),
            }
        } else {
            let before = self.relaxed(vin, xps, (i - 1) as nat);
            self.pass(vin, before.up, before.dupdt, xps[i as int])
        }
    }

    /// Every power in `xps` that the relaxation reads is one that `pow` can return
    /// for the compression it belongs to.
    pub open spec fn powers_from<F: Fn(T, T) -> T>(&self, pow: &F, vin: T, xps: Seq<T>) -> bool {
        forall|j: nat|
            j <= PASSES && greater(#[trigger] self.relaxed(vin, xps, j).x1, zero::<T>())
                ==> pow.ensures((self.relaxed(vin, xps, j).x1, self.p), xps[j as int])
    }

    /// The hammer after a sample whose relaxation ended in `last`.
    pub open spec fn struck(&self, last: Pass<T>) -> Hammer<T> {
        Hammer { f: last.f, a: last.a, upprev: last.up, v: last.v1, x: last.x1, ..*self }
    }

    /// `post` and `force` are what `load` leaves and returns for the string
    /// velocity `vin`, with some powers that `pow` can return.
    pub open spec fn loaded<F: Fn(T, T) -> T>(
        &self,
        pow: &F,
        vin: T,
        post: Hammer<T>,
        force: T,
    ) -> bool {
        exists|xps: Seq<T>|
            {
                &&& xps.len() == PASSES + 1
                &&& self.powers_from(pow, vin, xps)
                &&& post == self.struck(#[trigger] self.relaxed(vin, xps, PASSES as nat))
                &&& force == post.f
            }
    }

    /// `other` is a hammer of the same mass and felt, sampled at the same rate.
    pub open spec fn same_make(&self, other: &Hammer<T>) -> bool {
        &&& self.dt == other.dt
        &&& self.dti == other.dti
        &&& self.v0 == other.v0
        &&& self.mi == other.mi
        &&& self.k == other.k
        &&& self.p == other.p
        &&& self.fs == other.fs
        &&& self.alpha == other.alpha
        &&& self.z2i == other.z2i
    }

    /// The hammer before it meets the string: no compression, no force, and the
    /// velocity `v0`.
    pub open spec fn poised(fs: T, m: T, k: T, p: T, z: T, alpha: T, v0: T) -> Hammer<T> {
        Hammer {
            dt: number::<T>(1).div_spec(fs),
            dti: fs,
            x: zero::<T>(),
            v: v0,
            a: zero::<T>(),
            v0,
            mi: number::<T>(1).div_spec(m),
            k,
            p,
            fs,
            f: zero::<T>(),
            upprev: zero::<T>(),
            alpha,
            z2i: number::<T>(1).div_spec(number::<T>(2).mul_spec(z)),
        }
    }

    /// A hammer of mass `m` that flies at `v0` towards a string of impedance `z`,
    /// sampled at the rate `fs`. The felt has the stiffness `k`, the exponent `p`
    /// and the hysteresis `alpha`. The frequency `f` of the note is taken for the
    /// caller's convenience; the model does not depend on it.
    pub fn new(f: T, fs: T, m: T, k: T, p: T, z: T, alpha: T, v0: T) -> (h: Hammer<T>)
        requires
            total::<T>(),
        ensures
            h.dti == fs,
            h.v == v0,
            h.v0 == v0,
            h.k == k,
            h.p == p,
            h.fs == fs,
            h.alpha == alpha,
            exact::<T>() ==> h == Hammer::poised(fs, m, k, p, z, alpha, v0),
    {
        let rest: T = T::from(0u8);
        let one: T = T::from(1u8);
        let two: T = T::from(2u8);
        Hammer {
            dt: one / fs,
            dti: fs,
            x: rest,
            v: v0,
            a: rest,
            v0,
            mi: one / m,
            k,
            p,
            fs,
            f: rest,
            upprev: rest,
            alpha,
            z2i: one / (two * z),
        }
    }

    /// The force on the string for this sample, given the string's velocity `vin`
    /// at the striking point. `pow` raises a positive compression to a power.
    pub fn load<F: Fn(T, T) -> T>(&mut self, vin: T, pow: &F) -> (force: T)
        requires
            total::<T>(),
            forall|x: T, p: T| pow.requires((x, p)),
        ensures
            final(self).same_make(old(self)),
            force == final(self).f,
            exact::<T>() ==> (force == zero::<T>() || !less(force, zero::<T>())),
            exact::<T>() ==> old(self).loaded(pow, vin, *final(self), force),
    {
        let rest: T = T::from(0u8);
        let ghost start = *self;
        let mut up: T = if self.x > rest {
            pow(self.x, self.p)
        } else {
            rest
        };
        let ghost mut xps: Seq<T> = seq![up];
        let mut dupdt: T = (up - self.upprev) * self.dti;
        let mut v1: T = rest;
        let mut x1: T = self.x;
        let mut k: usize = 0;
        while k < PASSES
            invariant
                total::<T>(),
                forall|x: T, p: T| pow.requires((x, p)),
                k <= PASSES,
                xps.len() == k + 1,
                exact::<T>() ==> rest == zero::<T>(),
                self.dt == start.dt,
                self.dti == start.dti,
                self.x == start.x,
                self.v == start.v,
                self.v0 == start.v0,
                self.mi == start.mi,
                self.k == start.k,
                self.p == start.p,
                self.fs == start.fs,
                self.upprev == start.upprev,
                self.alpha == start.alpha,
                self.z2i == start.z2i,
                exact::<T>() ==> {
                    let now = start.relaxed(vin, xps, k as nat);
                    &&& now.f == self.f
                    &&& now.a == self.a
                    &&& now.x1 == x1
                    &&& now.up == up
                    &&& now.dupdt == dupdt
                    &&& k > 0 ==> now.v1 == v1
                    &&& k > 0 ==> (self.f == zero::<T>() || !less(self.f, zero::<T>()))
                },
                exact::<T>() ==> forall|j: nat|
                    j <= k && greater(#[trigger] start.relaxed(vin, xps, j).x1, zero::<T>())
                        ==> pow.ensures((start.relaxed(vin, xps, j).x1, start.p), xps[j as int]),
            decreases PASSES - k,
        {
            let ghost seen = xps;
            self.f = self.k * (up + self.alpha * dupdt);
            if self.f < rest {
                self.f = rest;
            }
            self.a = self.f.neg() * self.mi;
            v1 = self.v + self.a * self.dt;
            x1 = self.x + (v1 - (vin + self.f * self.z2i)) * self.dt;
            up = if x1 > rest {
                pow(x1, self.p)
            } else {
                rest
            };
            dupdt = (up - self.upprev) * self.dti;
            k = k + 1;
            proof {
                xps = seen.push(up);
                if exact::<T>() {
                    assert forall|j: nat| j < k implies start.relaxed(vin, xps, j)
                        == start.relaxed(vin, seen, j) by {
                        lemma_relaxed_prefix(start, vin, seen, xps, j);
                    }
                    assert(start.relaxed(vin, xps, (k - 1) as nat) == start.relaxed(
                        vin,
                        seen,
                        (k - 1) as nat,
                    ));
                }
            }
        }
        self.upprev = up;
        self.v = v1;
        self.x = x1;
        proof {
            if exact::<T>() {
                let last = start.relaxed(vin, xps, PASSES as nat);
                assert(*self == start.struck(last));
                assert(start.powers_from(pow, vin, xps));
            }
        }
        self.f
    }
}

/// The first passes of a relaxation read only the first powers.
pub proof fn lemma_relaxed_prefix<T: Sample>(
    h: Hammer<T>,
    vin: T,
    xps: Seq<T>,
    more: Seq<T>,
    i: nat,
)
    requires
        i < xps.len() <= more.len(),
        forall|j: int| 0 <= j < xps.len() ==> xps[j] == more[j],
    ensures
        h.relaxed(vin, more, i) == h.relaxed(vin, xps, i),
    decreases i,
{
    if i > 0 {
        lemma_relaxed_prefix(h, vin, xps, more, (i - 1) as nat);
    }
}

} // verus!
