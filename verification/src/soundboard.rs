//! The soundboard as the strings see it: an impedance that moves at one velocity.

use crate::sample::{exact, zero, Sample};
use vstd::prelude::*;

verus! {

/// The soundboard at the bridge.
pub struct Soundboard<T> {
    pub impedance: T,
    pub velocity: T,
}

impl<T: Sample> Soundboard<T> {
    /// A soundboard of the given impedance at rest.
    pub fn new(impedance: T) -> (board: Soundboard<T>)
        ensures
            board.impedance == impedance,
            exact::<T>() ==> board.velocity == zero::<T>(),
    {
        Soundboard { impedance, velocity: T::from(0u8) }
    }
}

} // verus!
