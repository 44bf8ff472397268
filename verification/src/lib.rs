//! A small numerical toolkit built around a linear-programming core:
//! a problem model in standard form and a simplex tableau engine that
//! pivots it to optimality or detects unboundedness.
//!
//! All tableau arithmetic is exact: entries are rational numbers with
//! machine-integer numerator and denominator, so every pivot step is
//! either carried out exactly or reported as exceeding machine range.
//! Scalar root finding over floating-point functions lives outside the
//! verified library.

pub mod equation;
pub mod lp;
pub mod rational;
pub mod tableau;
