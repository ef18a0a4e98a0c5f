//! Pricing and liquidity arithmetic for a constant-product market maker.
//!
//! Every formula multiplies before it divides, in 256 bits, and narrows the
//! quotient back to a 128-bit balance, so that no intermediate value wraps.

pub mod amm;
mod wide;

pub use amm::MathError;
