//! Error values for the scalar root finders.
//!
//! The root finders themselves (bisection and Newton iteration) work on
//! floating-point functions and live outside the verified library; the
//! typed errors they report are defined here so that callers can match
//! on them.

use vstd::prelude::*;

verus! {

/// Why a bisection search could not return a root.
#[derive(Clone, Copy, Debug, PartialEq, Eq, Structural)]
pub enum BisectionError {
    /// The bracket does not contain a sign change, so no root is known
    /// to lie inside it.
    SolutionNotFound,
    /// The left end of the bracket lies beyond the right end.
    InvalidRange,
}

} // verus!
