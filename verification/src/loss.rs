//! The loss of a string: a one-pole low-pass in the loop.
//!
//! With the loss parameters `c1` (all frequencies alike) and `c3` (growing with
//! frequency) the pole `a1` is the root of a quadratic, and the gain is chosen so
//! that the filter passes `g = 1 - c1 / f0` at zero frequency.

use crate::filter::Filter;
use crate::sample::{exact, number, total, zero, Sample};
use vstd::prelude::*;
use vstd::std_specs::ops::{AddSpec, DivSpec, MulSpec, NegSpec, SubSpec};

verus! {

/// `4 c3 + f0`, the middle coefficient of the quadratic for the pole.
pub open spec fn loss_mid<T: Sample>(f0: T, c3: T) -> T {
    number::<T>(4).mul_spec(c3).add_spec(f0)
}

/// What the square root is taken of: `(4 c3 + f0)^2 - 16 c3^2`.
pub open spec fn loss_radicand<T: Sample>(f0: T, c3: T) -> T {
    let mid = loss_mid(f0, c3);
    mid.mul_spec(mid).sub_spec(number::<T>(16).mul_spec(c3).mul_spec(c3))
}

/// The pole, given the square root `root` of the radicand.
pub open spec fn loss_pole<T: Sample>(f0: T, c3: T, root: T) -> T {
    loss_mid(f0, c3).neg_spec().add_spec(root).div_spec(number::<T>(4).mul_spec(c3))
}

/// The feed-forward coefficient `g (1 + a1)` for the pole `a1`.
pub open spec fn loss_gain<T: Sample>(f0: T, c1: T, a1: T) -> T {
    number::<T>(1).sub_spec(c1.div_spec(f0)).mul_spec(number::<T>(1).add_spec(a1))
}

/// `f` is the loss filter of a string of frequency `f0`, at rest, for a root that
/// the caller's square root can give.
pub open spec fn loss_made<T: Sample, F: Fn(T) -> T>(f0: T, c1: T, c3: T, sqrt: &F, f: Filter<T>) -> bool {
    &&& f.n == 1
    &&& f.name@ == "loss"@
    &&& exists|root: T|
        {
            &&& #[trigger] sqrt.ensures((loss_radicand(f0, c3),), root)
            &&& f.a@ == seq![number::<T>(1), loss_pole(f0, c3, root)]
            &&& f.b@ == seq![loss_gain(f0, c1, loss_pole(f0, c3, root)), zero::<T>()]
        }
    &&& f.x@ == Seq::new(2, |k: int| zero::<T>())
    &&& f.y@ == Seq::new(2, |k: int| zero::<T>())
}

/// The loss filter of a string of frequency `f0`. `sqrt` takes the square root.
/// The sample rate `fs` is taken for the caller's convenience; the filter does
/// not depend on it.
pub fn loss<T: Sample, F: Fn(T) -> T>(f0: T, fs: T, c1: T, c3: T, sqrt: &F) -> (f: Filter<T>)
    requires
        total::<T>(),
        forall|x: T| sqrt.requires((x,)),
    ensures
        f.wf(),
        f.n == 1,
        f.name@ == "loss"@,
        exact::<T>() ==> loss_made(f0, c1, c3, sqrt, f),
{
    let one: T = T::from(1u8);
    let four: T = T::from(4u8);
    let g: T = one - c1 / f0;
    let b_: T = four * c3 + f0;
    let root: T = sqrt(b_ * b_ - T::from(16u8) * c3 * c3);
    let a1: T = (b_.neg() + root) / (four * c3);

    let mut a: Vec<T> = Vec::new();
    let mut b: Vec<T> = Vec::new();
    b.push(g * (one + a1));
    b.push(T::from(0u8));
    a.push(one);
    a.push(a1);
    proof {
        if exact::<T>() {
            assert(sqrt.ensures((loss_radicand(f0, c3),), root));
            assert(a@ =~= seq![number::<T>(1), loss_pole(f0, c3, root)]);
            assert(b@ =~= seq![loss_gain(f0, c1, loss_pole(f0, c3, root)), zero::<T>()]);
        }
    }
    Filter::new(1, a, b, "loss".to_owned())
}

} // verus!
