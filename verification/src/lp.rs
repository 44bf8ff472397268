//! The linear-problem model: an immutable description of a linear
//! program in standard form, put together through a builder that
//! refuses to finalize without an objective.
//!
//! The variable count is a runtime value held by the builder; every
//! coefficient vector must have exactly that length. Only constraints
//! of the "less than or equal" kind are supported: the engine assumes
//! an all-slack feasible starting basis, and phase-one handling for
//! other constraint kinds or negative right-hand sides is out of scope.

use vstd::prelude::*;

use crate::rational::Rat;

verus! {

/// Errors reported by the problem model and the simplex engine.
#[derive(Clone, Copy, Debug, PartialEq, Eq, Structural)]
pub enum LinearProblemError {
    /// The builder was finalized without an objective function.
    ObjectiveRequired,
    /// A pivot step found an improving direction that no constraint
    /// limits: the objective can decrease without bound.
    Unbound,
    /// An exact tableau entry no longer fits in a machine word.
    Overflow,
}

/// The kind of a constraint. The engine supports "less than or equal"
/// rows; the type leaves room for other kinds later.
#[derive(Clone, Copy, Debug, PartialEq, Eq, Structural)]
pub enum ConstraintKind {
    Less,
}

/// One constraint row: coefficients over the problem variables, a kind
/// tag and a right-hand side.
pub struct Constraint {
    pub coefs: Vec<Rat>,
    pub kind: ConstraintKind,
    pub rhs: Rat,
}

/// The objective row: coefficients of the function to minimize.
pub struct Objective {
    pub coefs: Vec<Rat>,
}

impl Objective {
    pub fn new(coefs: Vec<Rat>) -> (r: Objective)
        ensures
            r.coefs == coefs,
    {
        Objective { coefs }
    }
}

/// Every rational in the sequence is well-formed.
pub open spec fn coefs_wf(s: Seq<Rat>) -> bool {
    forall|i: int| 0 <= i < s.len() ==> s[i].wf()
}

/// The constraint has one well-formed coefficient per variable and a
/// well-formed right-hand side.
pub open spec fn constraint_wf(c: Constraint, n_vars: int) -> bool {
    &&& c.coefs@.len() == n_vars
    &&& coefs_wf(c.coefs@)
    &&& c.rhs.wf()
}

/// A syntactically well-formed linear program: a positive variable
/// count, matching coefficient lengths everywhere, one objective.
pub struct LinearProblem {
    pub n_vars: usize,
    pub constraints: Vec<Constraint>,
    pub objective: Objective,
}

impl LinearProblem {
    pub open spec fn wf(self) -> bool {
        &&& self.n_vars > 0
        &&& forall|i: int|
            0 <= i < self.constraints@.len() ==> constraint_wf(
                self.constraints@[i],
                self.n_vars as int,
            )
        &&& self.objective.coefs@.len() == self.n_vars
        &&& coefs_wf(self.objective.coefs@)
    }

    /// Starts a builder for a problem over `n_vars` variables. A zero
    /// variable count is a malformed problem shape, ruled out up front.
    pub fn builder(n_vars: usize) -> (r: LinearProblemBuilder)
        requires
            n_vars > 0,
        ensures
            r.wf(),
            r.n_vars == n_vars,
            r.constraints@.len() == 0,
            r.objective is None,
    {
        LinearProblemBuilder { n_vars, constraints: Vec::new(), objective: None }
    }

    /// How many constraints the problem holds.
    pub fn n_constraints(&self) -> (r: usize)
        ensures
            r == self.constraints@.len(),
    {
        self.constraints.len()
    }
}

/// Accumulates constraints and an objective for a `LinearProblem`.
pub struct LinearProblemBuilder {
    pub n_vars: usize,
    pub constraints: Vec<Constraint>,
    pub objective: Option<Objective>,
}

impl LinearProblemBuilder {
    pub open spec fn wf(self) -> bool {
        &&& self.n_vars > 0
        &&& forall|i: int|
            0 <= i < self.constraints@.len() ==> constraint_wf(
                self.constraints@[i],
                self.n_vars as int,
            )
        &&& (self.objective matches Some(o) ==> o.coefs@.len() == self.n_vars && coefs_wf(
            o.coefs@,
        ))
    }

    /// Appends one constraint. No feasibility check happens here; the
    /// solver works from whatever rows the caller supplies.
    pub fn constraint(self, coefs: Vec<Rat>, kind: ConstraintKind, rhs: Rat) -> (r:
        LinearProblemBuilder)
        requires
            self.wf(),
            coefs@.len() == self.n_vars,
            coefs_wf(coefs@),
            rhs.wf(),
        ensures
            r.wf(),
            r.n_vars == self.n_vars,
            r.objective == self.objective,
            r.constraints@ == self.constraints@.push((Constraint { coefs, kind, rhs })),
    {
        let constraint = Constraint { coefs, kind, rhs };
        let mut b = self;
        b.constraints.push(constraint);
        b
    }

    /// Sets the objective row, overwriting any earlier one.
    pub fn objective(self, coefs: Vec<Rat>) -> (r: LinearProblemBuilder)
        requires
            self.wf(),
            coefs@.len() == self.n_vars,
            coefs_wf(coefs@),
        ensures
            r.wf(),
            r.n_vars == self.n_vars,
            r.constraints == self.constraints,
            r.objective matches Some(o) && o.coefs == coefs,
    {
        let mut b = self;
        b.objective = Some(Objective::new(coefs));
        b
    }

    /// Finalizes the problem. Succeeds exactly when an objective was
    /// set; otherwise reports `ObjectiveRequired`.
    pub fn build(self) -> (r: Result<LinearProblem, LinearProblemError>)
        requires
            self.wf(),
        ensures
            r is Ok <==> self.objective is Some,
            self.objective matches Some(o) ==> r matches Ok(p) && p.wf() && p.n_vars == self.n_vars
                && p.constraints == self.constraints && p.objective == o,
            r matches Err(e) ==> e == LinearProblemError::ObjectiveRequired,
    {
        match self.objective {
            Some(objective) => Ok(
                LinearProblem { n_vars: self.n_vars, constraints: self.constraints, objective },
            ),
            None => Err(LinearProblemError::ObjectiveRequired),
        }
    }
}

} // verus!
