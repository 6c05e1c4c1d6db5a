//! Tropical softmax: the max-plus replacement for softmax.

use vstd::prelude::*;

verus! {

/// Tropical softmax with a temperature of scalar type `S`.
///
/// The normalisation itself (shift by the maximum, clamp at zero, scale by
/// the temperature, divide by the sum) is arithmetic on the scalars.
pub struct TropicalSoftmax<S> {
    pub temperature: S,
}

impl<S> TropicalSoftmax<S> {
    /// A softmax with the given temperature.
    pub fn new(temperature: S) -> (res: Self)
        ensures
            res.temperature == temperature,
    {
        TropicalSoftmax { temperature }
    }
}

} // verus!
