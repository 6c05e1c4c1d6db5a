//! Tropical (max-plus) attention for neural architectures.
//!
//! The containers of this crate are generic in the scalar type `S` that
//! carries the numerical values. Everything here is shape and index logic:
//! building the containers, taking columns and head slices of row-major
//! data, and counting parameters. The max-plus arithmetic on the scalars is
//! supplied by the caller.

pub mod attention;
pub mod polytope;
pub mod rows;
pub mod softmax;
pub mod transformer;

pub use attention::TropicalAttention;
pub use polytope::NewtonPolytope;
pub use softmax::TropicalSoftmax;
pub use transformer::TropicalTransformerLayer;
