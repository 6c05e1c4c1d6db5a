//! Tropical transformer layer.

use vstd::prelude::*;

use crate::attention::TropicalAttention;

verus! {

/// A tropical transformer layer: tropical attention followed by a tropical
/// feed-forward block of width `ff_dim`.
pub struct TropicalTransformerLayer<S> {
    pub attention: TropicalAttention<S>,
    pub ff_dim: usize,
}

/// The approximate parameter count of a layer of model dimension `d` and
/// feed-forward width `ff`: `4 d^2` for attention and `3 d ff` for the
/// feed-forward block.
pub open spec fn layer_param_count(d: nat, ff: nat) -> nat {
    d * d * 4 + d * ff * 2 + ff * d
}

/// The parameter count factors as `d * (4 d + 3 ff)`: it vanishes exactly
/// when `d` is 0 or both widths are 0, grows with each width, and is at
/// least `4 d^2`.
pub proof fn lemma_param_count_factors(d: nat, ff: nat)
    ensures
        layer_param_count(d, ff) == d * (4 * d + 3 * ff),
        layer_param_count(d, ff) >= 4 * (d * d),
        d > 0 ==> layer_param_count(d, ff) >= 4,
        layer_param_count(d, ff + 1) == layer_param_count(d, ff) + 3 * d,
{
    assert(d * d * 4 + d * ff * 2 + ff * d == d * (4 * d + 3 * ff)) by (nonlinear_arith);
    assert(d * (4 * d + 3 * ff) >= 4 * (d * d)) by (nonlinear_arith);
    assert(d > 0 ==> d * (4 * d + 3 * ff) >= 4) by (nonlinear_arith);
    assert(d * d * 4 + d * (ff + 1) * 2 + (ff + 1) * d == d * d * 4 + d * ff * 2 + ff * d + 3 * d)
        by (nonlinear_arith);
}

impl<S> TropicalTransformerLayer<S> {
    /// A layer of model dimension `dim` and feed-forward width `ff_dim`,
    /// whose attention softmax has the given temperature.
    pub fn new(dim: usize, ff_dim: usize, temperature: S) -> (res: Self)
        ensures
            res.attention.dim == dim,
            res.attention.softmax.temperature == temperature,
            res.ff_dim == ff_dim,
    {
        TropicalTransformerLayer { attention: TropicalAttention::new(dim, temperature), ff_dim }
    }

    /// The number of parameters (approximate): `4 d^2 + 2 d ff + ff d`.
    pub fn param_count(&self) -> (n: usize)
        requires
            layer_param_count(self.attention.dim as nat, self.ff_dim as nat) <= usize::MAX,
        ensures
            n == layer_param_count(self.attention.dim as nat, self.ff_dim as nat),
            n == self.attention.dim * (4 * self.attention.dim + 3 * self.ff_dim),
            self.attention.dim > 0 ==> n > 0,
    {
        proof {
            lemma_param_count_factors(self.attention.dim as nat, self.ff_dim as nat);
        }
        let d: usize = self.attention.dim;
        let ff: usize = self.ff_dim;
        proof {
            let dn = d as nat;
            let fn_ = ff as nat;
            assert(dn * dn <= dn * dn * 4) by (nonlinear_arith);
            assert(dn * fn_ <= dn * fn_ * 2) by (nonlinear_arith);
            assert(fn_ * dn >= 0) by (nonlinear_arith);
            assert(dn * fn_ * 2 >= 0) by (nonlinear_arith);
            assert(dn * dn * 4 >= 0) by (nonlinear_arith);
            assert(dn > 0 ==> dn * dn * 4 > 0) by (nonlinear_arith);
        }
        d * d * 4 + d * ff * 2 + ff * d
    }
}

} // verus!
