//! The design of a note: from the number of a key to its strings and hammers.
//!
//! The design needs functions that the sample's arithmetic does not have:
//! logarithm and exponential, power, square root, sine, cosine and arc tangent,
//! and the cut of a sample to a whole number. The caller hands them in as a
//! [`Math`]. Nothing is taken for granted of what they return: every contract
//! says what the design makes of whatever values they gave.

use crate::dwgs::DWGs;
use crate::filter::Filter;
use crate::hammer::Hammer;
use crate::loss::loss_made;
use crate::piano::{detuning, unison, Piano};
use crate::sample::{exact, fraction, greater, less, number, ratio, total, whole, whole_spec, zero, Sample};
use crate::thirian::{dispersed, order_fits, thiran_made};
use crate::tuning::{shared, Delays};
use vstd::prelude::*;
use vstd::std_specs::ops::{AddSpec, DivSpec, MulSpec, NegSpec, SubSpec};

verus! {

/// The functions and constants that the design takes from the caller.
pub struct Math<T, Ln, Exp, Pow, Sqrt, Phasor, Atan2, Trunc> {
    /// Half a turn.
    pub pi: T,
    /// The frequency ratio of a half step, the twelfth root of two.
    pub halfstep: T,
    /// The natural logarithm.
    pub ln: Ln,
    /// The exponential function.
    pub exp: Exp,
    /// `pow(x, p)` is `x` to the power `p`.
    pub pow: Pow,
    /// The square root.
    pub sqrt: Sqrt,
    /// Cosine and sine of an angle.
    pub phasor: Phasor,
    /// `atan2(y, x)` is the angle of the point `(x, y)`.
    pub atan2: Atan2,
    /// The whole samples in a delay.
    pub trunc: Trunc,
}

/// The physical parameters of a note.
pub struct Note<T> {
    /// The frequency of the note.
    pub f: T,
    /// The exponent of the felt.
    pub p: T,
    /// The mass of the hammer.
    pub m: T,
    /// The stiffness of the felt.
    pub k: T,
    /// The length of the string.
    pub l: T,
    /// The radius of the string.
    pub r: T,
    /// The mass of the string per length.
    pub rho_l: T,
    /// The tension of the string.
    pub t: T,
    /// The inharmonicity of the string.
    pub b: T,
    /// The impedance of the string.
    pub z: T,
    /// The hysteresis of the felt.
    pub alpha: T,
}

/// What the caller's functions returned on the way to the parameters of a note.
pub struct NoteTrace<T> {
    /// Two to the power of the octaves above the concert pitch.
    pub octaves: T,
    /// The logarithm of the frequency over that of the lowest key.
    pub lf: T,
    /// The logarithm of the highest frequency over that of the lowest key.
    pub lr: T,
    /// The power in the hammer's mass.
    pub mass: T,
    /// The power in the felt's stiffness.
    pub stiff: T,
    /// The exponential in the string's length.
    pub length: T,
    /// The power in the string's radius.
    pub radius: T,
    /// The root in the string's impedance.
    pub z: T,
}

/// What the caller's functions returned on the way to a string, and the parts
/// that were made of it.
pub struct StringTrace<T> {
    /// The dispersion filters.
    pub chain: Seq<Filter<T>>,
    /// The group delay of one dispersion filter.
    pub stiff: T,
    /// The loss filter.
    pub lowpass: Filter<T>,
    /// The group delay of the loss filter.
    pub damped: T,
    /// How the period was shared out.
    pub delays: Delays<T>,
    /// The order of the tuning filter.
    pub order: usize,
}

/// The frequency of the lowest key, 27.5 Hz.
pub open spec fn lowest<T: Sample>() -> T {
    ratio::<T>(55, 2)
}

/// The frequency of the key `note`, given the power of two for its octaves.
pub open spec fn pitch<T: Sample>(octaves: T) -> T {
    whole_spec::<T>(440).mul_spec(octaves)
}

/// The exponent of the power of two for the key `note`: its distance from the
/// concert pitch in octaves.
pub open spec fn octave_distance<T: Sample>(note: usize) -> T {
    whole_spec::<T>(note as nat).sub_spec(whole_spec::<T>(69)).div_spec(whole_spec::<T>(12))
}

/// The parameters of a note, given what the caller's functions returned.
pub open spec fn note_from<T: Sample>(pi: T, t: NoteTrace<T>) -> Note<T> {
    let one = number::<T>(1);
    let two = number::<T>(2);
    let f = pitch(t.octaves);
    let p = two.add_spec(one.mul_spec(t.lf).div_spec(t.lr));
    let m = ratio::<T>(6, 100).sub_spec(ratio::<T>(58, 1000).mul_spec(t.mass));
    let k = whole_spec::<T>(40).div_spec(t.stiff);
    let l = ratio::<T>(4, 100).add_spec(ratio::<T>(14, 10).div_spec(one.add_spec(t.length)));
    let r = ratio::<T>(2, 1000).mul_spec(t.radius);
    let rho_l = pi.mul_spec(r).mul_spec(r).mul_spec(whole_spec::<T>(7850));
    let round = two.mul_spec(l).mul_spec(f);
    let tension = round.mul_spec(round).mul_spec(rho_l);
    let e = whole_spec::<T>(2000).mul_spec(whole_spec::<T>(100000000));
    let rcore = if less(r, ratio::<T>(6, 10000)) {
        r
    } else {
        ratio::<T>(6, 10000)
    };
    let b = pi.mul_spec(pi).mul_spec(pi).mul_spec(e).mul_spec(
        rcore.mul_spec(rcore).mul_spec(rcore).mul_spec(rcore),
    ).div_spec(whole_spec::<T>(4).mul_spec(l).mul_spec(l).mul_spec(tension));
    let alpha = ratio::<T>(1, 100000).mul_spec(t.lf).div_spec(t.lr);
    Note { f, p, m, k, l, r, rho_l, t: tension, b, z: t.z, alpha }
}

impl<
    T: Sample,
    Ln: Fn(T) -> T,
    Exp: Fn(T) -> T,
    Pow: Fn(T, T) -> T,
    Sqrt: Fn(T) -> T,
    Phasor: Fn(T) -> (T, T),
    Atan2: Fn(T, T) -> T,
    Trunc: Fn(T) -> usize,
> Math<T, Ln, Exp, Pow, Sqrt, Phasor, Atan2, Trunc> {
    /// Every function takes every argument.
    pub open spec fn usable(&self) -> bool {
        &&& forall|x: T| self.ln.requires((x,))
        &&& forall|x: T| self.exp.requires((x,))
        &&& forall|x: T, p: T| self.pow.requires((x, p))
        &&& forall|x: T| self.sqrt.requires((x,))
        &&& forall|x: T| self.phasor.requires((x,))
        &&& forall|y: T, x: T| self.atan2.requires((y, x))
        &&& forall|x: T| self.trunc.requires((x,))
    }

    /// Each value in `t` is one that the caller's function can return where the
    /// design of the key `note` asks for it.
    pub open spec fn note_traced(&self, note: usize, t: NoteTrace<T>) -> bool {
        let one = number::<T>(1);
        let n = note_from(self.pi, t);
        let key = t.lf.div_spec(t.lr);
        &&& self.pow.ensures((number::<T>(2), octave_distance::<T>(note)), t.octaves)
        &&& self.ln.ensures((n.f.div_spec(lowest::<T>()),), t.lf)
        &&& self.ln.ensures((whole_spec::<T>(4192).div_spec(lowest::<T>()),), t.lr)
        &&& self.pow.ensures((key, ratio::<T>(1, 10)), t.mass)
        &&& self.pow.ensures((ratio::<T>(7, 10000), n.p), t.stiff)
        &&& self.exp.ensures(
            (ratio::<T>(34, 10).neg_spec().add_spec(ratio::<T>(14, 10).mul_spec(t.lf)),),
            t.length,
        )
        &&& self.pow.ensures(
            (one.add_spec(ratio::<T>(6, 10).mul_spec(t.lf)), ratio::<T>(14, 10).neg_spec()),
            t.radius,
        )
        &&& self.sqrt.ensures((n.t.mul_spec(n.rho_l),), t.z)
    }

    /// `n` holds the parameters of the key `note`.
    pub open spec fn note_made(&self, note: usize, n: Note<T>) -> bool {
        exists|t: NoteTrace<T>| #[trigger] self.note_traced(note, t) && n == note_from(self.pi, t)
    }

    /// The parts in `t` are those of a string of frequency `f`, and `s` is the
    /// string made of them: none where the order of the tuning filter is too
    /// large.
    pub open spec fn string_traced(
        &self,
        f: T,
        fs: T,
        inpos: T,
        c1: T,
        c3: T,
        b: T,
        z: T,
        zb: T,
        zh: T,
        t: StringTrace<T>,
        s: Option<DWGs<T>>,
    ) -> bool {
        let m = t.chain.len();
        &&& m == 1 || m == 4
        &&& m == 1 <==> greater(f, whole_spec::<T>(400))
        &&& forall|i: int|
            0 <= i < m ==> dispersed(
                b,
                f,
                m as usize,
                self.halfstep,
                &self.ln,
                &self.exp,
                #[trigger] t.chain[i],
            )
        &&& t.chain[0].group_delayed(f, fs, self.pi, &self.phasor, &self.atan2, &self.sqrt, t.stiff)
        &&& loss_made(f, c1, c3, &self.sqrt, t.lowpass)
        &&& t.lowpass.group_delayed(f, fs, self.pi, &self.phasor, &self.atan2, &self.sqrt, t.damped)
        &&& shared(
            f,
            fs,
            inpos,
            whole_spec::<T>(m).mul_spec(t.stiff),
            t.damped,
            &self.trunc,
            t.delays,
        )
        &&& self.trunc.ensures((t.delays.tuning,), t.order)
        &&& match s {
            None => !order_fits(t.order),
            Some(s) => {
                &&& order_fits(t.order)
                &&& s.filters.dispersion@ == t.chain
                &&& s.filters.lowpass == t.lowpass
                &&& thiran_made(t.delays.tuning, t.order, s.filters.fracdelay)
                &&& s.fresh(t.delays.del1, t.delays.del2, t.delays.del3, s.filters, z, zb, zh)
            },
        }
    }

    /// `s` is a string of frequency `f` as `string` makes it.
    pub open spec fn string_made(
        &self,
        f: T,
        fs: T,
        inpos: T,
        c1: T,
        c3: T,
        b: T,
        z: T,
        zb: T,
        zh: T,
        s: Option<DWGs<T>>,
    ) -> bool {
        exists|t: StringTrace<T>| #[trigger]
            self.string_traced(f, fs, inpos, c1, c3, b, z, zb, zh, t, s)
    }

    /// String `k` of the unison of `count` strings for the note `n` is `s`.
    pub open spec fn unison_made(
        &self,
        n: Note<T>,
        fs: T,
        count: usize,
        k: int,
        s: Option<DWGs<T>>,
    ) -> bool {
        self.string_made(
            n.f.mul_spec(detuning::<T>(k as usize)),
            fs,
            number::<T>(1).div_spec(whole_spec::<T>(7)),
            ratio::<T>(25, 100),
            ratio::<T>(585, 100),
            n.b,
            n.z,
            whole_spec::<T>(4000).add_spec(number::<T>((count - 1) as u8).mul_spec(n.z)),
            zero::<T>(),
            s,
        )
    }

    /// `p` is the piano for the note `n` of the key `note`: none where one of its
    /// strings could not be made.
    pub open spec fn piano_traced(
        &self,
        note: usize,
        fs: T,
        v0: T,
        n: Note<T>,
        p: Option<Piano<T>>,
    ) -> bool {
        let count = unison(note);
        &&& self.note_made(note, n)
        &&& match p {
            None => exists|k: int| 0 <= k < count && #[trigger] self.unison_made(n, fs, count, k, None),
            Some(p) => {
                &&& p.nstrings == count
                &&& p.z == n.z
                &&& p.zb == whole_spec::<T>(4000)
                &&& p.string@.len() == count
                &&& p.hammers@.len() == count
                &&& forall|k: int|
                    0 <= k < count ==> self.unison_made(n, fs, count, k, Some(#[trigger] p.string@[k]))
                &&& forall|k: int|
                    0 <= k < count ==> #[trigger] p.hammers@[k] == Hammer::poised(
                        fs,
                        n.m,
                        n.k,
                        n.p,
                        n.z,
                        n.alpha,
                        v0,
                    )
            },
        }
    }

    /// The physical parameters of the key `note`, by the regressions that fit a
    /// concert grand.
    pub fn note(&self, note: usize) -> (n: Note<T>)
        requires
            self.usable(),
            total::<T>(),
        ensures
            exact::<T>() ==> self.note_made(note, n),
    {
        let one: T = T::from(1u8);
        let two: T = T::from(2u8);
        let f0: T = fraction::<T>(55, 2);
        let octaves: T = (self.pow)(two, (whole::<T>(note as u64) - whole::<T>(69)) / whole::<T>(12));
        let f: T = whole::<T>(440) * octaves;
        let rho: T = whole::<T>(7850);
        let lf: T = (self.ln)(f / f0);
        let lr: T = (self.ln)(whole::<T>(4192) / f0);
        let p: T = two + one * lf / lr;
        let mass: T = (self.pow)(lf / lr, fraction::<T>(1, 10));
        let m: T = fraction::<T>(6, 100) - fraction::<T>(58, 1000) * mass;
        let stiff: T = (self.pow)(fraction::<T>(7, 10000), p);
        let k: T = whole::<T>(40) / stiff;
        let length: T = (self.exp)(fraction::<T>(34, 10).neg() + fraction::<T>(14, 10) * lf);
        let l: T = fraction::<T>(4, 100) + fraction::<T>(14, 10) / (one + length);
        let radius: T = (self.pow)(one + fraction::<T>(6, 10) * lf, fraction::<T>(14, 10).neg());
        let r: T = fraction::<T>(2, 1000) * radius;
        let rho_l: T = self.pi * r * r * rho;
        let t: T = (two * l * f) * (two * l * f) * rho_l;
        let e: T = whole::<T>(2000) * whole::<T>(100000000);
        let thin: T = fraction::<T>(6, 10000);
        let rcore: T = if r < thin {
            r
        } else {
            thin
        };
        let b: T = (self.pi * self.pi * self.pi) * e * (rcore * rcore * rcore * rcore) / (whole::<T>(
            4,
        ) * l * l * t);
        let z: T = (self.sqrt)(t * rho_l);
        let alpha: T = fraction::<T>(1, 100000) * lf / lr;
        let n = Note { f, p, m, k, l, r, rho_l, t, b, z, alpha };
        proof {
            if exact::<T>() {
                let trace = NoteTrace { octaves, lf, lr, mass, stiff, length, radius, z };
                assert(n == note_from(self.pi, trace));
                assert(self.note_traced(note, trace));
            }
        }
        n
    }

}

} // verus!
