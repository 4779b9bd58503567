//! Numbers of arbitrary precision, matrices, and lemmas of real arithmetic.
pub mod integer;
pub mod matrix;
pub mod natural;
pub mod real_ring;
