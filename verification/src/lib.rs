//! A columnar numeric field engine.
//!
//! A [`Layer`] holds one value per index of a domain, such as the cells of a grid. Its
//! operations work element by element, reduce a layer to a few values, remap it by an index
//! mapping, or interpolate; each writes into an output layer that the caller supplies, so
//! nothing is allocated on the way. The element types bring their numeric capabilities
//! along as traits. [`Random`] is a seeded Mersenne Twister for filling layers.
//!
//! Every function carries a contract over a mathematical model of its arguments: a layer is
//! the sequence of its elements, and the generator is its state words and its cursor.

pub mod algebra;
pub mod bounded;
pub mod div_usize;
pub mod dot;
pub mod e_x;
pub mod entrywise_ops;
pub mod interpolations;
pub mod inv;
pub mod layer;
pub mod layer_bounded;
pub mod layer_clone;
pub mod layer_copy;
pub mod layer_swizzle;
pub mod magnitude;
pub mod normalize;
pub mod one;
pub mod operators;
pub mod partial_eq;
pub mod partial_ord;
pub mod power;
pub mod random;
pub mod scalar_layer;
pub mod similarity;
pub mod square_root;
pub mod to_numeric;
pub mod vector_layer;
pub mod zero;

pub use bounded::Bounded;
pub use div_usize::DivUsize;
pub use dot::Dot;
pub use e_x::EX;
pub use entrywise_ops::{
    EntrywiseAdd, EntrywiseDiv, EntrywiseEX, EntrywiseInv, EntrywiseMul, EntrywisePow,
    EntrywiseSqrt, EntrywiseSub,
};
pub use inv::Inv;
pub use layer::Layer;
pub use magnitude::Magnitude;
pub use normalize::Normalize;
pub use one::One;
pub use power::Power;
pub use random::Random;
pub use similarity::Similarity;
pub use square_root::SquareRoot;
pub use to_numeric::ToNumeric;
pub use zero::Zero;
