//! The delay of a filter at one frequency, read off its frequency response.
//!
//! The phase delay at a frequency is the phase of `H(e^{jw}) = B(e^{jw}) /
//! A(e^{jw})`, brought into `[0, 2 pi)`, over `w`. The group delay is the slope
//! of the phase, taken between five hertz below and five hertz above the
//! frequency. Sine and cosine, arc tangent and square root are the caller's.

use crate::filter::{tap_sum, Filter};
use crate::sample::{exact, less, number, total, whole, whole_spec, zero, Sample};
use vstd::prelude::*;
use vstd::std_specs::ops::{AddSpec, DivSpec, MulSpec, SubSpec};

verus! {

/// The angular frequency `2 pi f / fs` of the frequency `f` at the sample rate `fs`.
pub open spec fn angular<T: Sample>(pi: T, f: T, fs: T) -> T {
    number::<T>(2).mul_spec(pi).mul_spec(f).div_spec(fs)
}

/// A phase as it is read: a negative phase is raised by one full turn.
pub open spec fn unwrapped<T: Sample>(arg: T, turn: T) -> T {
    if less(arg, zero::<T>()) {
        arg.add_spec(turn)
    } else {
        arg
    }
}

/// The slope of the phase between two frequencies, from their phase delays:
/// `(w2 t2 - w1 t1) / (w2 - w1)`.
pub open spec fn phase_slope<T: Sample>(omega1: T, tau1: T, omega2: T, tau2: T) -> T {
    omega2.mul_spec(tau2).sub_spec(omega1.mul_spec(tau1)).div_spec(omega2.sub_spec(omega1))
}

/// The angular frequency of the frequency `f` at the sample rate `fs`, where
/// `pi` is half a turn.
pub fn angular_frequency<T: Sample>(pi: T, f: T, fs: T) -> (omega: T)
    requires
        total::<T>(),
    ensures
        exact::<T>() ==> omega == angular(pi, f, fs),
{
    T::from(2u8) * pi * f / fs
}

/// The phase `arg` brought into `[0, turn)`: one full turn is added to a
/// negative phase, and nothing is done to any other.
pub fn unwrap_phase<T: Sample>(arg: T, turn: T) -> (phase: T)
    requires
        total::<T>(),
    ensures
        exact::<T>() ==> phase == unwrapped(arg, turn),
{
    if arg < T::from(0u8) {
        arg + turn
    } else {
        arg
    }
}

/// The group delay between the angular frequencies `omega1` and `omega2`, where
/// the phase delays are `tau1` and `tau2`.
pub fn group_delay<T: Sample>(omega1: T, tau1: T, omega2: T, tau2: T) -> (delay: T)
    requires
        total::<T>(),
    ensures
        exact::<T>() ==> delay == phase_slope(omega1, tau1, omega2, tau2),
{
    (omega2 * tau2 - omega1 * tau1) / (omega2 - omega1)
}

/// The square of the length of the complex number `h`.
pub open spec fn norm<T: Sample>(h: (T, T)) -> T {
    h.0.mul_spec(h.0).add_spec(h.1.mul_spec(h.1))
}

/// What the caller's functions returned on the way to a phase delay.
pub struct PhaseTrace<T> {
    /// `cos(k w)` for every tap `k`.
    pub cosines: Seq<T>,
    /// `sin(k w)` for every tap `k`.
    pub sines: Seq<T>,
    /// Length and phase of the numerator `B(e^{jw})`.
    pub above: (T, T),
    /// Length and phase of the denominator `A(e^{jw})`.
    pub below: (T, T),
    /// Cosine and sine of the difference of the two phases.
    pub turn: (T, T),
    /// The phase of the quotient.
    pub arg: T,
}

impl<T: Sample> Filter<T> {
    /// `tau` is the phase delay at the frequency `f` that follows from the values
    /// in `t`, and each of those values is one that the caller's function can
    /// return where it was asked.
    pub open spec fn phase_traced<P: Fn(T) -> (T, T), A: Fn(T, T) -> T, R: Fn(T) -> T>(
        &self,
        f: T,
        fs: T,
        pi: T,
        phasor: &P,
        atan2: &A,
        sqrt: &R,
        t: PhaseTrace<T>,
        tau: T,
    ) -> bool {
        let omega = angular(pi, f, fs);
        let taps = (self.n + 1) as nat;
        let hn = (tap_sum(zero::<T>(), t.cosines, self.b@, taps), tap_sum(
            zero::<T>(),
            t.sines,
            self.b@,
            taps,
        ));
        let hd = (tap_sum(zero::<T>(), t.cosines, self.a@, taps), tap_sum(
            zero::<T>(),
            t.sines,
            self.a@,
            taps,
        ));
        let mag = t.above.0.div_spec(t.below.0);
        &&& t.cosines.len() == taps
        &&& t.sines.len() == taps
        &&& forall|k: int|
            0 <= k < taps ==> phasor.ensures(
                (whole_spec::<T>(k as nat).mul_spec(omega),),
                (#[trigger] t.cosines[k], t.sines[k]),
            )
        &&& sqrt.ensures((norm(hn),), t.above.0)
        &&& atan2.ensures((hn.1, hn.0), t.above.1)
        &&& sqrt.ensures((norm(hd),), t.below.0)
        &&& atan2.ensures((hd.1, hd.0), t.below.1)
        &&& phasor.ensures((t.above.1.sub_spec(t.below.1),), t.turn)
        &&& atan2.ensures((mag.mul_spec(t.turn.1), mag.mul_spec(t.turn.0)), t.arg)
        &&& tau == unwrapped(t.arg, number::<T>(2).mul_spec(pi)).div_spec(omega)
    }

    /// `tau` is a phase delay of the filter at the frequency `f`.
    pub open spec fn phase_delayed<P: Fn(T) -> (T, T), A: Fn(T, T) -> T, R: Fn(T) -> T>(
        &self,
        f: T,
        fs: T,
        pi: T,
        phasor: &P,
        atan2: &A,
        sqrt: &R,
        tau: T,
    ) -> bool {
        exists|t: PhaseTrace<T>| #[trigger] self.phase_traced(f, fs, pi, phasor, atan2, sqrt, t, tau)
    }

    /// `delay` is the slope of the phase between five hertz below and five hertz
    /// above `f`, where `tau1` and `tau2` are phase delays of the filter there.
    pub open spec fn group_traced<P: Fn(T) -> (T, T), A: Fn(T, T) -> T, R: Fn(T) -> T>(
        &self,
        f: T,
        fs: T,
        pi: T,
        phasor: &P,
        atan2: &A,
        sqrt: &R,
        tau1: T,
        tau2: T,
        delay: T,
    ) -> bool {
        let f1 = f.sub_spec(number::<T>(5));
        let f2 = f.add_spec(number::<T>(5));
        &&& self.phase_delayed(f1, fs, pi, phasor, atan2, sqrt, tau1)
        &&& self.phase_delayed(f2, fs, pi, phasor, atan2, sqrt, tau2)
        &&& delay == phase_slope(angular(pi, f1, fs), tau1, angular(pi, f2, fs), tau2)
    }

    /// `delay` is a group delay of the filter at the frequency `f`.
    pub open spec fn group_delayed<P: Fn(T) -> (T, T), A: Fn(T, T) -> T, R: Fn(T) -> T>(
        &self,
        f: T,
        fs: T,
        pi: T,
        phasor: &P,
        atan2: &A,
        sqrt: &R,
        delay: T,
    ) -> bool {
        exists|tau1: T, tau2: T| #[trigger]
            self.group_traced(f, fs, pi, phasor, atan2, sqrt, tau1, tau2, delay)
    }

    /// The delay, in samples, that the filter gives to a sine of the frequency
    /// `f` at the sample rate `fs`. `pi` is half a turn, `phasor` gives cosine and
    /// sine of an angle, `atan2(y, x)` the angle of the point `(x, y)`, and `sqrt`
    /// the square root.
    pub fn phasedelay<P: Fn(T) -> (T, T), A: Fn(T, T) -> T, R: Fn(T) -> T>(
        &self,
        f: T,
        fs: T,
        pi: T,
        phasor: &P,
        atan2: &A,
        sqrt: &R,
    ) -> (tau: T)
        requires
            self.wf(),
            total::<T>(),
            forall|x: T| phasor.requires((x,)),
            forall|y: T, x: T| atan2.requires((y, x)),
            forall|x: T| sqrt.requires((x,)),
        ensures
            exact::<T>() ==> self.phase_delayed(f, fs, pi, phasor, atan2, sqrt, tau),
    {
        let omega: T = angular_frequency(pi, f, fs);
        let taps: usize = self.b.len();
        let mut cosines: Vec<T> = Vec::new();
        let mut sines: Vec<T> = Vec::new();
        let mut k: usize = 0;
        while k < taps
            invariant
                total::<T>(),
                forall|x: T| phasor.requires((x,)),
                taps == self.n + 1,
                k <= taps,
                cosines@.len() == k,
                sines@.len() == k,
                exact::<T>() ==> forall|j: int|
                    0 <= j < k ==> phasor.ensures(
                        (whole_spec::<T>(j as nat).mul_spec(omega),),
                        (#[trigger] cosines@[j], sines@[j]),
                    ),
            decreases taps - k,
        {
            let (c, s) = phasor(whole::<T>(k as u64) * omega);
            cosines.push(c);
            sines.push(s);
            k = k + 1;
        }
        let (hn, hd) = self.response_sums(&cosines, &sines);
        let magn: T = sqrt(hn.0 * hn.0 + hn.1 * hn.1);
        let argn: T = atan2(hn.1, hn.0);
        let magd: T = sqrt(hd.0 * hd.0 + hd.1 * hd.1);
        let argd: T = atan2(hd.1, hd.0);
        let mag: T = magn / magd;
        let turn: (T, T) = phasor(argn - argd);
        let arg: T = atan2(mag * turn.1, mag * turn.0);
        let tau: T = unwrap_phase(arg, T::from(2u8) * pi) / omega;
        proof {
            if exact::<T>() {
                let t = PhaseTrace {
                    cosines: cosines@,
                    sines: sines@,
                    above: (magn, argn),
                    below: (magd, argd),
                    turn,
                    arg,
                };
                assert(self.phase_traced(f, fs, pi, phasor, atan2, sqrt, t, tau));
            }
        }
        tau
    }

    /// The group delay of the filter at the frequency `f`: the slope of its
    /// phase between five hertz below and five hertz above `f`.
    pub fn groupdelay<P: Fn(T) -> (T, T), A: Fn(T, T) -> T, R: Fn(T) -> T>(
        &self,
        f: T,
        fs: T,
        pi: T,
        phasor: &P,
        atan2: &A,
        sqrt: &R,
    ) -> (delay: T)
        requires
            self.wf(),
            total::<T>(),
            forall|x: T| phasor.requires((x,)),
            forall|y: T, x: T| atan2.requires((y, x)),
            forall|x: T| sqrt.requires((x,)),
        ensures
            exact::<T>() ==> self.group_delayed(f, fs, pi, phasor, atan2, sqrt, delay),
    {
        let df: T = T::from(5u8);
        let f2: T = f + df;
        let f1: T = f - df;
        let omega2: T = angular_frequency(pi, f2, fs);
        let omega1: T = angular_frequency(pi, f1, fs);
        let tau2: T = self.phasedelay(f2, fs, pi, phasor, atan2, sqrt);
        let tau1: T = self.phasedelay(f1, fs, pi, phasor, atan2, sqrt);
        let delay: T = group_delay(omega1, tau1, omega2, tau2);
        proof {
            if exact::<T>() {
                assert(self.group_traced(f, fs, pi, phasor, atan2, sqrt, tau1, tau2, delay));
            }
        }
        delay
    }
}

} // verus!
