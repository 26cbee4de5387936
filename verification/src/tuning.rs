//! How one period of a string is shared out among its delay lines and filters.
//!
//! A string of frequency `f` sampled at `fs` takes `fs / f` samples for one
//! round trip. The left waveguide takes its part by the striking position. The
//! two lines of the right waveguide take what is left of each half: one less the
//! delay of the dispersion filters, the other less the delay of the loss filter
//! and a margin of five samples. What then remains of the period is the delay
//! that the tuning filter must have.

use crate::sample::{exact, greater, number, total, whole, whole_spec, Sample};
use vstd::prelude::*;
use vstd::std_specs::ops::{AddSpec, DivSpec, MulSpec, SubSpec};

verus! {

/// The delays of one string.
pub struct Delays<T> {
    /// Each line of the left waveguide.
    pub del1: usize,
    /// The line of the right waveguide that makes room for the dispersion
    /// filters.
    pub del2: usize,
    /// The line of the right waveguide that makes room for the loss filter.
    pub del3: usize,
    /// What the tuning filter must add.
    pub tuning: T,
}

/// The length of a delay line: `del`, and one where `del` is below two.
pub open spec fn clamped(del: usize) -> usize {
    if del < 2 {
        1
    } else {
        del
    }
}

/// A delay line holds at least one sample: a length below two is taken as one.
pub fn clamp_delay(del: usize) -> (r: usize)
    ensures
        r == clamped(del),
        r >= 1,
{
    if del < 2 {
        1
    } else {
        del
    }
}

/// How many dispersion filters a string of frequency `f` carries: one above
/// 400 Hz, four from there down.
pub fn dispersion_count<T: Sample>(f: T) -> (m: usize)
    requires
        total::<T>(),
    ensures
        m == 1 || m == 4,
        exact::<T>() ==> (m == 1 <==> greater(f, whole_spec::<T>(400))),
{
    if f > whole::<T>(400) {
        1
    } else {
        4
    }
}

/// The period `fs / f` in samples.
pub open spec fn period<T: Sample>(f: T, fs: T) -> T {
    fs.div_spec(f)
}

/// The delay of the left waveguide before it is cut to whole samples.
pub open spec fn left_share<T: Sample>(f: T, fs: T, inpos: T) -> T {
    inpos.mul_spec(number::<T>(1).div_spec(number::<T>(2))).mul_spec(period(f, fs))
}

/// Half of what the left waveguide of `del1` samples leaves of the period, less
/// the delay `taken` of the filters on that way.
pub open spec fn right_share<T: Sample>(f: T, fs: T, del1: usize, taken: T) -> T {
    number::<T>(1).div_spec(number::<T>(2)).mul_spec(
        period(f, fs).sub_spec(number::<T>(2).mul_spec(whole_spec::<T>(del1 as nat))),
    ).sub_spec(taken)
}

/// All the whole delays of `d` and both filter delays, summed in the order in
/// which the tuning is worked out.
pub open spec fn taken<T: Sample>(d: Delays<T>, dispersion: T, lowpass: T) -> T {
    whole_spec::<T>(d.del1 as nat).add_spec(whole_spec::<T>(d.del1 as nat)).add_spec(
        whole_spec::<T>(d.del2 as nat),
    ).add_spec(whole_spec::<T>(d.del3 as nat)).add_spec(dispersion).add_spec(lowpass)
}

/// What is left of the period after all delay lines and both filter delays.
pub open spec fn remainder<T: Sample>(f: T, fs: T, d: Delays<T>, dispersion: T, lowpass: T) -> T {
    period(f, fs).sub_spec(taken(d, dispersion, lowpass))
}

/// `d` shares out the period of the string, where `t1`, `t2` and `t3` are the
/// whole samples that `trunc` found in the three shares.
pub open spec fn shared_out<T: Sample, F: Fn(T) -> usize>(
    f: T,
    fs: T,
    inpos: T,
    dispersion: T,
    lowpass: T,
    trunc: &F,
    t1: usize,
    t2: usize,
    t3: usize,
    d: Delays<T>,
) -> bool {
    &&& trunc.ensures((left_share(f, fs, inpos),), t1)
    &&& d.del1 == clamped(t1)
    &&& trunc.ensures((right_share(f, fs, d.del1, dispersion),), t2)
    &&& d.del2 == clamped(t2)
    &&& trunc.ensures(
        (right_share(f, fs, d.del1, lowpass).sub_spec(number::<T>(5)),),
        t3,
    )
    &&& d.del3 == clamped(t3)
    &&& d.tuning == remainder(f, fs, d, dispersion, lowpass)
}

/// `d` shares out the period of the string, for whole samples that `trunc` can
/// find in the three shares.
pub open spec fn shared<T: Sample, F: Fn(T) -> usize>(
    f: T,
    fs: T,
    inpos: T,
    dispersion: T,
    lowpass: T,
    trunc: &F,
    d: Delays<T>,
) -> bool {
    exists|t1: usize, t2: usize, t3: usize| #[trigger]
        shared_out(f, fs, inpos, dispersion, lowpass, trunc, t1, t2, t3, d)
}

/// Shares out the period of a string of frequency `f`, struck at the fraction
/// `inpos` of its length, whose dispersion chain delays by `dispersion` samples
/// and whose loss filter by `lowpass`. `trunc` cuts a delay to whole samples.
pub fn delays<T: Sample, F: Fn(T) -> usize>(
    f: T,
    fs: T,
    inpos: T,
    dispersion: T,
    lowpass: T,
    trunc: &F,
) -> (d: Delays<T>)
    requires
        total::<T>(),
        forall|x: T| trunc.requires((x,)),
    ensures
        d.del1 >= 1,
        d.del2 >= 1,
        d.del3 >= 1,
        exact::<T>() ==> shared(f, fs, inpos, dispersion, lowpass, trunc, d),
{
    let half: T = T::from(1u8) / T::from(2u8);
    let two: T = T::from(2u8);
    let deltot: T = fs / f;
    let t1: usize = trunc(inpos * half * deltot);
    let del1: usize = clamp_delay(t1);
    let rest: T = half * (deltot - two * whole(del1 as u64));
    let t2: usize = trunc(rest - dispersion);
    let del2: usize = clamp_delay(t2);
    let t3: usize = trunc(rest - lowpass - T::from(5u8));
    let del3: usize = clamp_delay(t3);
    let tuning: T = deltot - (whole::<T>(del1 as u64) + whole(del1 as u64) + whole(del2 as u64)
        + whole(del3 as u64) + dispersion + lowpass);
    let d = Delays { del1, del2, del3, tuning };
    proof {
        if exact::<T>() {
            assert(shared_out(f, fs, inpos, dispersion, lowpass, trunc, t1, t2, t3, d));
        }
    }
    d
}

/// What was taken away can be added back: `(a - b) + b == a`.
pub open spec fn cancels<T: Sample>() -> bool {
    forall|a: T, b: T| #[trigger] a.sub_spec(b).add_spec(b) == a
}

/// The delay budget: the tuning delay, the delay lines and the filters together
/// make up exactly one period, wherever subtraction undoes addition.
pub proof fn lemma_budget<T: Sample, F: Fn(T) -> usize>(
    f: T,
    fs: T,
    inpos: T,
    dispersion: T,
    lowpass: T,
    trunc: &F,
    t1: usize,
    t2: usize,
    t3: usize,
    d: Delays<T>,
)
    requires
        cancels::<T>(),
        shared_out(f, fs, inpos, dispersion, lowpass, trunc, t1, t2, t3, d),
    ensures
        d.tuning.add_spec(taken(d, dispersion, lowpass)) == period(f, fs),
{
}

} // verus!
