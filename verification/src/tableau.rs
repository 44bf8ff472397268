//! The simplex tableau engine.
//!
//! `Simplex::new` consumes a `LinearProblem` and augments it with one
//! slack column per constraint, so that the all-slack basis is the
//! starting point. Each call of `solve` performs one pivot step of
//! Dantzig's rule: pick the column with the leftmost most-negative
//! objective coefficient, pick the row with the leftmost minimal
//! ratio of right-hand side to positive pivot-column entry, then
//! normalize the pivot row and eliminate the pivot column from every
//! other row and from the objective. `solve` reports `Optimal` when no
//! objective coefficient is negative, `Unbound` when the chosen column
//! has no positive entry, and `Overflow` when an exact entry of the
//! next tableau no longer fits in a machine word; in all three of
//! those cases the tableau is left unchanged.

use vstd::prelude::*;

use crate::lp::{Constraint, LinearProblem, LinearProblemError, Objective};
use crate::rational::{
    copy_rats, div_val, lemma_mul_sign, lemma_val_lt_le_trans, mul_val, rat_div, rat_lt, rat_mul,
    rat_one, rat_sub, rat_zero, sub_val, val_fits, val_le, val_lt, val_wf, Rat, RatVal,
};

verus! {

/// A constraint turned into an equality row of the tableau: the
/// original coefficients followed by one slack column per constraint.
pub struct ConstraintEquation {
    pub coefs: Vec<Rat>,
    pub rhs: Rat,
}

impl ConstraintEquation {
    pub fn new(constraint: &Constraint) -> (r: ConstraintEquation)
        ensures
            r.coefs@ == constraint.coefs@,
            r.rhs == constraint.rhs,
    {
        ConstraintEquation { coefs: copy_rats(&constraint.coefs), rhs: constraint.rhs }
    }
}

/// What one call of `solve` did.
#[derive(Clone, Copy, Debug, PartialEq, Eq, Structural)]
pub enum SolveStep {
    /// A pivot was performed on the given row and column; the tableau
    /// changed, and `solve` should be called again.
    Continuing { pivot_row: usize, pivot_col: usize },
    /// No objective coefficient is negative; the tableau is terminal
    /// and further calls leave it as it is.
    Optimal,
}

/// The live tableau: the equality rows and the extended objective row.
pub struct Simplex {
    pub constraints: Vec<ConstraintEquation>,
    pub objective: Objective,
}

impl Simplex {
    /// Number of rows.
    pub open spec fn n_rows(self) -> int {
        self.constraints@.len() as int
    }

    /// Number of columns, original variables and slacks together.
    pub open spec fn width(self) -> int {
        self.objective.coefs@.len() as int
    }

    /// Objective coefficient of column `k`.
    pub open spec fn obj(self, k: int) -> Rat {
        self.objective.coefs@[k]
    }

    /// Entry of row `i` at column `k`.
    pub open spec fn at(self, i: int, k: int) -> Rat {
        self.constraints@[i].coefs@[k]
    }

    /// Right-hand side of row `i`.
    pub open spec fn rhs(self, i: int) -> Rat {
        self.constraints@[i].rhs
    }

    /// Every row is as wide as the objective and every entry is a
    /// well-formed rational.
    pub open spec fn wf(self) -> bool {
        &&& forall|i: int|
            0 <= i < self.n_rows() ==> self.constraints@[i].coefs@.len() == self.width()
        &&& forall|i: int, k: int|
            0 <= i < self.n_rows() && 0 <= k < self.width() ==> self.at(i, k).wf()
        &&& forall|i: int| 0 <= i < self.n_rows() ==> self.rhs(i).wf()
        &&& forall|k: int| 0 <= k < self.width() ==> self.obj(k).wf()
    }
}

/// No objective coefficient is negative: the tableau is terminal.
pub open spec fn is_optimal(s: Simplex) -> bool {
    forall|k: int| 0 <= k < s.width() ==> s.obj(k).num >= 0
}

/// Dantzig's entering rule: column `j` holds the leftmost minimum of
/// the objective row, and that minimum is negative.
pub open spec fn is_pivot_col(s: Simplex, j: int) -> bool {
    &&& 0 <= j < s.width()
    &&& s.obj(j).num < 0
    &&& forall|k: int| 0 <= k < s.width() ==> val_le(s.obj(j).v(), s.obj(k).v())
    &&& forall|k: int| 0 <= k < j ==> val_lt(s.obj(j).v(), s.obj(k).v())
}

/// No row limits growth along column `j`: every entry there is
/// non-positive.
pub open spec fn col_unbounded(s: Simplex, j: int) -> bool {
    forall|i: int| 0 <= i < s.n_rows() ==> s.at(i, j).num <= 0
}

/// The bound row `i` puts on the entering variable of column `j`:
/// its right-hand side divided by its pivot-column entry.
pub open spec fn ratio(s: Simplex, i: int, j: int) -> RatVal {
    div_val(s.rhs(i).v(), s.at(i, j).v())
}

/// Minimum-ratio leaving rule: row `i` has a positive entry in the
/// pivot column and the leftmost minimal ratio among such rows.
pub open spec fn is_pivot_row(s: Simplex, i: int, j: int) -> bool {
    &&& 0 <= i < s.n_rows()
    &&& s.at(i, j).num > 0
    &&& forall|r: int|
        0 <= r < s.n_rows() && s.at(r, j).num > 0 ==> val_le(ratio(s, i, j), ratio(s, r, j))
    &&& forall|r: int|
        0 <= r < i && s.at(r, j).num > 0 ==> val_lt(ratio(s, i, j), ratio(s, r, j))
}

/// Every ratio the minimum-ratio test must form fits in machine words.
pub open spec fn ratios_fit(s: Simplex, j: int) -> bool {
    forall|i: int|
        0 <= i < s.n_rows() && s.at(i, j).num > 0 ==> val_fits(ratio(s, i, j))
}

/// Entry `k` of the pivot row after division by the pivot element.
pub open spec fn norm_entry(s: Simplex, i: int, j: int, k: int) -> RatVal {
    div_val(s.at(i, k).v(), s.at(i, j).v())
}

/// Right-hand side of the pivot row after division by the pivot
/// element.
pub open spec fn norm_rhs(s: Simplex, i: int, j: int) -> RatVal {
    div_val(s.rhs(i).v(), s.at(i, j).v())
}

/// Entry `k` of row `r` after eliminating the pivot column.
pub open spec fn elim_entry(s: Simplex, i: int, j: int, r: int, k: int) -> RatVal {
    sub_val(s.at(r, k).v(), mul_val(s.at(r, j).v(), norm_entry(s, i, j, k)))
}

/// Right-hand side of row `r` after eliminating the pivot column.
pub open spec fn elim_rhs(s: Simplex, i: int, j: int, r: int) -> RatVal {
    sub_val(s.rhs(r).v(), mul_val(s.at(r, j).v(), norm_rhs(s, i, j)))
}

/// Objective coefficient `k` after eliminating the pivot column.
pub open spec fn elim_obj(s: Simplex, i: int, j: int, k: int) -> RatVal {
    sub_val(s.obj(k).v(), mul_val(s.obj(j).v(), norm_entry(s, i, j, k)))
}

/// The normalized pivot row fits in machine words.
pub open spec fn norm_fits(s: Simplex, i: int, j: int) -> bool {
    &&& forall|k: int| 0 <= k < s.width() ==> val_fits(norm_entry(s, i, j, k))
    &&& val_fits(norm_rhs(s, i, j))
}

/// The elimination of entry `k` of row `r`, its intermediate product
/// included, fits in machine words.
pub open spec fn elim_term_fits(s: Simplex, i: int, j: int, r: int, k: int) -> bool {
    &&& val_fits(mul_val(s.at(r, j).v(), norm_entry(s, i, j, k)))
    &&& val_fits(elim_entry(s, i, j, r, k))
}

/// The elimination of the pivot column from row `r`, intermediate
/// products included, fits in machine words.
pub open spec fn elim_row_fits(s: Simplex, i: int, j: int, r: int) -> bool {
    &&& forall|k: int| 0 <= k < s.width() ==> #[trigger] elim_term_fits(s, i, j, r, k)
    &&& val_fits(mul_val(s.at(r, j).v(), norm_rhs(s, i, j)))
    &&& val_fits(elim_rhs(s, i, j, r))
}

/// The elimination of objective coefficient `k`, its intermediate
/// product included, fits in machine words.
pub open spec fn obj_term_fits(s: Simplex, i: int, j: int, k: int) -> bool {
    &&& val_fits(mul_val(s.obj(j).v(), norm_entry(s, i, j, k)))
    &&& val_fits(elim_obj(s, i, j, k))
}

/// The elimination of the pivot column from the objective row fits in
/// machine words.
pub open spec fn elim_obj_fits(s: Simplex, i: int, j: int) -> bool {
    forall|k: int| 0 <= k < s.width() ==> #[trigger] obj_term_fits(s, i, j, k)
}

/// The whole pivot update on row `i`, column `j` fits in machine words.
pub open spec fn step_fits(s: Simplex, i: int, j: int) -> bool {
    &&& norm_fits(s, i, j)
    &&& forall|r: int| 0 <= r < s.n_rows() && r != i ==> elim_row_fits(s, i, j, r)
    &&& elim_obj_fits(s, i, j)
}

/// `s1` is `s0` after the pivot update on row `i`, column `j`: the
/// pivot row divided by the pivot element, the pivot column eliminated
/// from every other row and from the objective.
pub open spec fn stepped(s0: Simplex, s1: Simplex, i: int, j: int) -> bool {
    &&& s1.n_rows() == s0.n_rows()
    &&& s1.width() == s0.width()
    &&& forall|k: int| 0 <= k < s0.width() ==> s1.at(i, k).v() == norm_entry(s0, i, j, k)
    &&& s1.rhs(i).v() == norm_rhs(s0, i, j)
    &&& forall|r: int, k: int|
        0 <= r < s0.n_rows() && r != i && 0 <= k < s0.width() ==> s1.at(r, k).v() == elim_entry(
            s0,
            i,
            j,
            r,
            k,
        )
    &&& forall|r: int| 0 <= r < s0.n_rows() && r != i ==> s1.rhs(r).v() == elim_rhs(s0, i, j, r)
    &&& forall|k: int| 0 <= k < s0.width() ==> s1.obj(k).v() == elim_obj(s0, i, j, k)
}

/// The ratio of a row with a positive pivot-column entry is a
/// well-formed rational value.
proof fn lemma_ratio_wf(s: Simplex, t: int, j: int)
    requires
        s.wf(),
        0 <= t < s.n_rows(),
        0 <= j < s.width(),
        s.at(t, j).num > 0,
    ensures
        val_wf(ratio(s, t, j)),
{
    crate::rational::lemma_mul_pos(s.rhs(t).den as int, s.at(t, j).num as int);
}

/// Two columns that both satisfy the entering rule are the same.
pub proof fn lemma_pivot_col_unique(s: Simplex, j1: int, j2: int)
    requires
        is_pivot_col(s, j1),
        is_pivot_col(s, j2),
    ensures
        j1 == j2,
{
    if j1 < j2 {
        assert(val_lt(s.obj(j2).v(), s.obj(j1).v()));
        assert(val_le(s.obj(j1).v(), s.obj(j2).v()));
    }
    if j2 < j1 {
        assert(val_lt(s.obj(j1).v(), s.obj(j2).v()));
        assert(val_le(s.obj(j2).v(), s.obj(j1).v()));
    }
}

/// Two rows that both satisfy the leaving rule for column `j` are the
/// same.
pub proof fn lemma_pivot_row_unique(s: Simplex, i1: int, i2: int, j: int)
    requires
        is_pivot_row(s, i1, j),
        is_pivot_row(s, i2, j),
    ensures
        i1 == i2,
{
    if i1 < i2 {
        assert(val_lt(ratio(s, i2, j), ratio(s, i1, j)));
        assert(val_le(ratio(s, i1, j), ratio(s, i2, j)));
    }
    if i2 < i1 {
        assert(val_lt(ratio(s, i1, j), ratio(s, i2, j)));
        assert(val_le(ratio(s, i2, j), ratio(s, i1, j)));
    }
}

/// An improving column in which no row has a positive entry certifies
/// unboundedness: from such a tableau a pivot step cannot be optimal
/// and must report `Unbound`.
pub proof fn lemma_unbounded_column(s: Simplex, j: int)
    requires
        s.wf(),
        is_pivot_col(s, j),
        col_unbounded(s, j),
    ensures
        !is_optimal(s),
        exists|jj: int| is_pivot_col(s, jj) && col_unbounded(s, jj),
{
    assert(s.obj(j).num < 0);
    assert(is_pivot_col(s, j) && col_unbounded(s, j));
}

/// The elimination of a column entry against the normalized pivot
/// entry of that same column cancels exactly: the resulting numerator,
/// written out over the four fractions involved, is zero.
proof fn lemma_elim_cancels(cn: int, cd: int, pn: int, pd: int)
    by (nonlinear_arith)
    ensures
        cn * (cd * (pd * pn)) - (cn * (pn * pd)) * cd == 0,
{
}

/// The numerator of an eliminated right-hand side stays non-negative:
/// either the eliminating row's pivot entry is non-positive, so the
/// subtracted product cannot raise the value above the old one, or the
/// minimum-ratio inequality bounds what is subtracted.
proof fn lemma_elim_rhs_nonneg(rn: int, rd: int, cn: int, cd: int, bn: int, bd: int, pn: int, pd: int)
    by (nonlinear_arith)
    requires
        rd > 0,
        cd > 0,
        bd > 0,
        pd > 0,
        pn > 0,
        rn >= 0,
        bn >= 0,
        cn > 0 ==> (bn * pd) * (rd * cn) <= (rn * cd) * (bd * pn),
    ensures
        rn * (cd * (bd * pn)) - (cn * (bn * pd)) * rd >= 0,
{
}

/// After a pivot update the pivot column is a unit vector: the pivot
/// position holds the value one (its numerator equals its
/// denominator), and the pivot column of every other row and of the
/// objective holds the value zero.
pub proof fn lemma_pivot_column_unit(s0: Simplex, s1: Simplex, i: int, j: int)
    requires
        s0.wf(),
        0 <= i < s0.n_rows(),
        0 <= j < s0.width(),
        s0.at(i, j).num > 0,
        stepped(s0, s1, i, j),
    ensures
        s1.at(i, j).v().num == s1.at(i, j).v().den,
        forall|r: int| 0 <= r < s0.n_rows() && r != i ==> s1.at(r, j).v().num == 0,
        s1.obj(j).v().num == 0,
{
    lemma_mul_sign(s0.at(i, j).num as int, s0.at(i, j).den as int);
    assert forall|r: int| 0 <= r < s0.n_rows() && r != i implies s1.at(r, j).v().num == 0 by {
        lemma_elim_cancels(
            s0.at(r, j).num as int,
            s0.at(r, j).den as int,
            s0.at(i, j).num as int,
            s0.at(i, j).den as int,
        );
        assert(s1.at(r, j).v() == elim_entry(s0, i, j, r, j));
    }
    lemma_elim_cancels(
        s0.obj(j).num as int,
        s0.obj(j).den as int,
        s0.at(i, j).num as int,
        s0.at(i, j).den as int,
    );
    assert(s1.obj(j).v() == elim_obj(s0, i, j, j));
}

/// The minimum-ratio rule preserves feasibility: when every right-hand
/// side of a tableau is non-negative, every right-hand side of its
/// pivot update is non-negative again.
pub proof fn lemma_rhs_stay_nonnegative(s0: Simplex, s1: Simplex, i: int, j: int)
    requires
        s0.wf(),
        0 <= j < s0.width(),
        is_pivot_row(s0, i, j),
        stepped(s0, s1, i, j),
        forall|r: int| 0 <= r < s0.n_rows() ==> s0.rhs(r).num >= 0,
    ensures
        forall|r: int| 0 <= r < s0.n_rows() ==> s1.rhs(r).v().num >= 0,
{
    assert forall|r: int| 0 <= r < s0.n_rows() implies s1.rhs(r).v().num >= 0 by {
        if r == i {
            lemma_mul_sign(s0.at(i, j).den as int, s0.rhs(i).num as int);
            assert(s1.rhs(i).v() == norm_rhs(s0, i, j));
        } else {
            assert(s0.rhs(r).num >= 0);
            if s0.at(r, j).num > 0 {
                assert(val_le(ratio(s0, i, j), ratio(s0, r, j)));
            }
            lemma_elim_rhs_nonneg(
                s0.rhs(r).num as int,
                s0.rhs(r).den as int,
                s0.at(r, j).num as int,
                s0.at(r, j).den as int,
                s0.rhs(i).num as int,
                s0.rhs(i).den as int,
                s0.at(i, j).num as int,
                s0.at(i, j).den as int,
            );
            assert(s1.rhs(r).v() == elim_rhs(s0, i, j, r));
        }
    }
}

impl Simplex {
    /// Builds the working tableau from a problem: each row gets the
    /// identity block of slack columns appended, the objective gets a
    /// zero coefficient per slack variable.
    pub fn new(problem: LinearProblem) -> (s: Simplex)
        requires
            problem.wf(),
        ensures
            s.wf(),
            s.n_rows() == problem.constraints@.len(),
            s.width() == problem.n_vars + problem.constraints@.len(),
            forall|i: int, k: int|
                0 <= i < s.n_rows() && 0 <= k < problem.n_vars ==> s.at(i, k)
                    == problem.constraints@[i].coefs@[k],
            forall|i: int, k: int|
                0 <= i < s.n_rows() && problem.n_vars <= k < s.width() ==> s.at(i, k) == (if k
                    == problem.n_vars + i {
                    rat_one()
                } else {
                    rat_zero()
                }),
            forall|i: int| 0 <= i < s.n_rows() ==> s.rhs(i) == problem.constraints@[i].rhs,
            forall|k: int|
                0 <= k < problem.n_vars ==> s.obj(k) == problem.objective.coefs@[k],
            forall|k: int| problem.n_vars <= k < s.width() ==> s.obj(k) == rat_zero(),
    {
        let n_constraints = problem.n_constraints();
        let mut rows: Vec<ConstraintEquation> = Vec::new();
        let mut i: usize = 0;
        while i < problem.constraints.len()
            invariant
                problem.wf(),
                n_constraints == problem.constraints@.len(),
                i <= n_constraints,
                rows@.len() == i,
                forall|t: int|
                    0 <= t < i ==> rows@[t].coefs@.len() == problem.n_vars + n_constraints,
                forall|t: int, k: int|
                    0 <= t < i && 0 <= k < problem.n_vars ==> rows@[t].coefs@[k]
                        == problem.constraints@[t].coefs@[k],
                forall|t: int, k: int|
                    0 <= t < i && problem.n_vars <= k < problem.n_vars + n_constraints
                        ==> rows@[t].coefs@[k] == (if k == problem.n_vars + t {
                        rat_one()
                    } else {
                        rat_zero()
                    }),
                forall|t: int| 0 <= t < i ==> rows@[t].rhs == problem.constraints@[t].rhs,
            decreases problem.constraints@.len() - i,
        {
            let mut eq = ConstraintEquation::new(&problem.constraints[i]);
            let mut k: usize = 0;
            while k < n_constraints
                invariant
                    problem.wf(),
                    n_constraints == problem.constraints@.len(),
                    i < n_constraints,
                    k <= n_constraints,
                    eq.coefs@.len() == problem.n_vars + k,
                    forall|t: int|
                        0 <= t < problem.n_vars ==> eq.coefs@[t]
                            == problem.constraints@[i as int].coefs@[t],
                    forall|t: int|
                        problem.n_vars <= t < problem.n_vars + k ==> eq.coefs@[t] == (if t
                            == problem.n_vars + i {
                            rat_one()
                        } else {
                            rat_zero()
                        }),
                    eq.rhs == problem.constraints@[i as int].rhs,
                decreases n_constraints - k,
            {
                if k == i {
                    eq.coefs.push(Rat::from_int(1));
                } else {
                    eq.coefs.push(Rat::from_int(0));
                }
                k = k + 1;
            }
            rows.push(eq);
            i = i + 1;
        }
        let mut obj = copy_rats(&problem.objective.coefs);
        let mut k: usize = 0;
        while k < n_constraints
            invariant
                problem.wf(),
                n_constraints == problem.constraints@.len(),
                k <= n_constraints,
                obj@.len() == problem.n_vars + k,
                forall|t: int|
                    0 <= t < problem.n_vars ==> obj@[t] == problem.objective.coefs@[t],
                forall|t: int|
                    problem.n_vars <= t < problem.n_vars + k ==> obj@[t] == rat_zero(),
            decreases n_constraints - k,
        {
            obj.push(Rat::from_int(0));
            k = k + 1;
        }
        Simplex { constraints: rows, objective: Objective::new(obj) }
    }

    /// Finds the entering column by Dantzig's rule, or reports that
    /// the tableau is optimal.
    #[verifier::loop_isolation(false)]
    fn find_pivot_col(&self) -> (r: Option<usize>)
        requires
            self.wf(),
        ensures
            r is None <==> is_optimal(*self),
            r matches Some(j) ==> is_pivot_col(*self, j as int),
    {
        let n = self.objective.coefs.len();
        if n == 0 {
            return None;
        }
        let mut best: usize = 0;
        let mut idx: usize = 1;
        while idx < n
            invariant
                1 <= idx <= n,
                best < idx,
                forall|k: int|
                    0 <= k < idx ==> val_le(self.obj(best as int).v(), self.obj(k).v()),
                forall|k: int| 0 <= k < best ==> val_lt(self.obj(best as int).v(), self.obj(k).v()),
            decreases n - idx,
        {
            proof {
                assert(self.obj(idx as int).wf());
                assert(self.obj(best as int).wf());
            }
            if rat_lt(self.objective.coefs[idx], self.objective.coefs[best]) {
                proof {
                    assert forall|k: int| 0 <= k < idx implies val_lt(
                        self.obj(idx as int).v(),
                        self.obj(k).v(),
                    ) by {
                        lemma_val_lt_le_trans(
                            self.obj(idx as int).v(),
                            self.obj(best as int).v(),
                            self.obj(k).v(),
                        );
                    }
                }
                best = idx;
            }
            idx = idx + 1;
        }
        if self.objective.coefs[best].num < 0 {
            proof {
                assert(self.obj(best as int).num < 0);
            }
            Some(best)
        } else {
            proof {
                assert forall|k: int| 0 <= k < n implies self.obj(k).num >= 0 by {
                    lemma_mul_sign(self.obj(k).den as int, self.obj(best as int).num as int);
                    lemma_mul_sign(self.obj(best as int).den as int, self.obj(k).num as int);
                }
            }
            None
        }
    }

    /// Finds the leaving row for column `j` by the minimum-ratio test.
    /// `Ok(None)` means no row has a positive entry in the column, so
    /// the problem is unbounded along it; `Err` means a ratio does not
    /// fit in machine words.
    #[verifier::loop_isolation(false)]
    fn find_pivot_row(&self, j: usize) -> (r: Result<Option<usize>, LinearProblemError>)
        requires
            self.wf(),
            j < self.width(),
        ensures
            r matches Ok(o) ==> (o is None <==> col_unbounded(*self, j as int)),
            r matches Ok(o) ==> (o matches Some(i) ==> is_pivot_row(*self, i as int, j as int)
                && ratios_fit(*self, j as int)),
            r is Err <==> !ratios_fit(*self, j as int),
            r matches Err(e) ==> e == LinearProblemError::Overflow,
    {
        let m = self.constraints.len();
        let mut found = false;
        let mut best_row: usize = 0;
        let mut best_ratio = Rat::from_int(0);
        let mut idx: usize = 0;
        while idx < m
            invariant
                idx <= m,
                !found ==> forall|t: int| 0 <= t < idx ==> self.at(t, j as int).num <= 0,
                found ==> best_row < idx && self.at(best_row as int, j as int).num > 0
                    && best_ratio.wf() && best_ratio.v() == ratio(*self, best_row as int, j as int)
                    && (forall|t: int|
                    0 <= t < idx && self.at(t, j as int).num > 0 ==> val_le(
                        ratio(*self, best_row as int, j as int),
                        ratio(*self, t, j as int),
                    )) && (forall|t: int|
                    0 <= t < best_row && self.at(t, j as int).num > 0 ==> val_lt(
                        ratio(*self, best_row as int, j as int),
                        ratio(*self, t, j as int),
                    )),
                forall|t: int|
                    0 <= t < idx && self.at(t, j as int).num > 0 ==> val_fits(
                        ratio(*self, t, j as int),
                    ),
            decreases m - idx,
        {
            let c = self.constraints[idx].coefs[j];
            proof {
                assert(self.at(idx as int, j as int).wf());
                assert(self.rhs(idx as int).wf());
            }
            if c.num > 0 {
                let q = match rat_div(self.constraints[idx].rhs, c) {
                    Some(q) => q,
                    None => {
                        proof {
                            assert(self.at(idx as int, j as int).num > 0);
                            assert(!val_fits(ratio(*self, idx as int, j as int)));
                        }
                        return Err(LinearProblemError::Overflow);
                    },
                };
                if !found || rat_lt(q, best_ratio) {
                    proof {
                        if found {
                            assert forall|t: int|
                                0 <= t < idx && self.at(t, j as int).num > 0 implies val_lt(
                                ratio(*self, idx as int, j as int),
                                ratio(*self, t, j as int),
                            ) by {
                                lemma_ratio_wf(*self, idx as int, j as int);
                                lemma_ratio_wf(*self, best_row as int, j as int);
                                lemma_ratio_wf(*self, t, j as int);
                                lemma_val_lt_le_trans(
                                    ratio(*self, idx as int, j as int),
                                    ratio(*self, best_row as int, j as int),
                                    ratio(*self, t, j as int),
                                );
                            }
                        }
                    }
                    found = true;
                    best_row = idx;
                    best_ratio = q;
                }
            }
            idx = idx + 1;
        }
        if found {
            Ok(Some(best_row))
        } else {
            Ok(None)
        }
    }

    /// Performs the pivot update on row `i`, column `j`: divides the
    /// pivot row by the pivot element and eliminates the pivot column
    /// from every other row and from the objective. Returns the new
    /// tableau, or `Overflow` as soon as an exact entry does not fit
    /// in machine words; the tableau itself is only read.
    #[verifier::loop_isolation(false)]
    fn pivot_update(&self, i: usize, j: usize) -> (r: Result<Simplex, LinearProblemError>)
        requires
            self.wf(),
            is_pivot_col(*self, j as int),
            is_pivot_row(*self, i as int, j as int),
            ratios_fit(*self, j as int),
        ensures
            r is Ok <==> step_fits(*self, i as int, j as int),
            r matches Ok(s1) ==> s1.wf() && stepped(*self, s1, i as int, j as int),
            r matches Err(e) ==> e == LinearProblemError::Overflow,
    {
        let ghost ii: int = i as int;
        let ghost jj: int = j as int;
        let piv = self.constraints[i].coefs[j];
        proof {
            assert(self.at(ii, jj).wf());
            assert(self.rhs(ii).wf());
        }
        let width = self.objective.coefs.len();
        let mut ncoefs: Vec<Rat> = Vec::new();
        let mut k: usize = 0;
        while k < width
            invariant
                k <= width,
                ncoefs@.len() == k,
                forall|t: int|
                    0 <= t < k ==> (#[trigger] ncoefs@[t]).wf() && ncoefs@[t].v() == norm_entry(
                        *self,
                        ii,
                        jj,
                        t,
                    ),
                forall|t: int| 0 <= t < k ==> #[trigger] val_fits(norm_entry(*self, ii, jj, t)),
            decreases width - k,
        {
            proof {
                assert(self.at(ii, k as int).wf());
            }
            match rat_div(self.constraints[i].coefs[k], piv) {
                Some(q) => {
                    proof {
                        assert(q.v() == norm_entry(*self, ii, jj, k as int));
                        assert(val_fits(norm_entry(*self, ii, jj, k as int)));
                    }
                    ncoefs.push(q);
                },
                None => {
                    proof {
                        assert(!val_fits(norm_entry(*self, ii, jj, k as int)));
                        assert(!norm_fits(*self, ii, jj));
                    }
                    return Err(LinearProblemError::Overflow);
                },
            }
            k = k + 1;
        }
        proof {
            assert(val_fits(ratio(*self, ii, jj)));
        }
        let nrhs = match rat_div(self.constraints[i].rhs, piv) {
            Some(x) => x,
            None => {
                return Err(LinearProblemError::Overflow);
            },
        };
        proof {
            assert(nrhs.v() == norm_rhs(*self, ii, jj));
            assert(val_fits(norm_rhs(*self, ii, jj)));
            assert(norm_fits(*self, ii, jj));
        }
        let m = self.constraints.len();
        let mut new_rows: Vec<ConstraintEquation> = Vec::new();
        let mut row: usize = 0;
        while row < m
            invariant
                row <= m,
                new_rows@.len() == row,
                forall|t: int|
                    0 <= t < row ==> (#[trigger] new_rows@[t]).coefs@.len() == self.width()
                        && new_rows@[t].rhs.wf(),
                forall|t: int, u: int|
                    0 <= t < row && 0 <= u < self.width() ==> (#[trigger] new_rows@[t].coefs@[u]).wf(),
                ii < row ==> (forall|u: int|
                    0 <= u < self.width() ==> (#[trigger] new_rows@[ii].coefs@[u]).v()
                        == norm_entry(*self, ii, jj, u)) && new_rows@[ii].rhs.v() == norm_rhs(
                    *self,
                    ii,
                    jj,
                ),
                forall|t: int, u: int|
                    0 <= t < row && t != ii && 0 <= u < self.width() ==> (#[trigger] new_rows@[t].coefs@[u]).v()
                        == elim_entry(*self, ii, jj, t, u),
                forall|t: int|
                    0 <= t < row && t != ii ==> (#[trigger] new_rows@[t]).rhs.v() == elim_rhs(
                        *self,
                        ii,
                        jj,
                        t,
                    ),
                forall|t: int| 0 <= t < row && t != ii ==> #[trigger] elim_row_fits(*self, ii, jj, t),
            decreases m - row,
        {
            if row == i {
                new_rows.push(ConstraintEquation { coefs: copy_rats(&ncoefs), rhs: nrhs });
            } else {
                let ghost rr: int = row as int;
                let factor = self.constraints[row].coefs[j];
                proof {
                    assert(self.at(rr, jj).wf());
                    assert(self.rhs(rr).wf());
                }
                let mut ecoefs: Vec<Rat> = Vec::new();
                let mut u: usize = 0;
                while u < width
                    invariant
                        u <= width,
                        ecoefs@.len() == u,
                        forall|t: int|
                            0 <= t < u ==> (#[trigger] ecoefs@[t]).wf() && ecoefs@[t].v()
                                == elim_entry(*self, ii, jj, rr, t),
                        forall|t: int| 0 <= t < u ==> #[trigger] elim_term_fits(*self, ii, jj, rr, t),
                    decreases width - u,
                {
                    proof {
                        assert(self.at(rr, u as int).wf());
                        assert(ncoefs@[u as int].v() == norm_entry(*self, ii, jj, u as int));
                    }
                    let p = match rat_mul(factor, ncoefs[u]) {
                        Some(x) => x,
                        None => {
                            proof {
                                assert(!val_fits(
                                    mul_val(
                                        self.at(rr, jj).v(),
                                        norm_entry(*self, ii, jj, u as int),
                                    ),
                                ));
                                assert(!elim_term_fits(*self, ii, jj, rr, u as int));
                                assert(!elim_row_fits(*self, ii, jj, rr));
                            }
                            return Err(LinearProblemError::Overflow);
                        },
                    };
                    let e = match rat_sub(self.constraints[row].coefs[u], p) {
                        Some(x) => x,
                        None => {
                            proof {
                                assert(p.v() == mul_val(
                                    self.at(rr, jj).v(),
                                    norm_entry(*self, ii, jj, u as int),
                                ));
                                assert(!val_fits(elim_entry(*self, ii, jj, rr, u as int)));
                                assert(!elim_term_fits(*self, ii, jj, rr, u as int));
                                assert(!elim_row_fits(*self, ii, jj, rr));
                            }
                            return Err(LinearProblemError::Overflow);
                        },
                    };
                    proof {
                        assert(p.v() == mul_val(
                            self.at(rr, jj).v(),
                            norm_entry(*self, ii, jj, u as int),
                        ));
                        assert(val_fits(
                            mul_val(self.at(rr, jj).v(), norm_entry(*self, ii, jj, u as int)),
                        ));
                        assert(e.v() == elim_entry(*self, ii, jj, rr, u as int));
                        assert(val_fits(elim_entry(*self, ii, jj, rr, u as int)));
                        assert(elim_term_fits(*self, ii, jj, rr, u as int));
                    }
                    ecoefs.push(e);
                    u = u + 1;
                }
                let pr = match rat_mul(factor, nrhs) {
                    Some(x) => x,
                    None => {
                        proof {
                            assert(!val_fits(
                                mul_val(self.at(rr, jj).v(), norm_rhs(*self, ii, jj)),
                            ));
                            assert(!elim_row_fits(*self, ii, jj, rr));
                        }
                        return Err(LinearProblemError::Overflow);
                    },
                };
                let er = match rat_sub(self.constraints[row].rhs, pr) {
                    Some(x) => x,
                    None => {
                        proof {
                            assert(pr.v() == mul_val(self.at(rr, jj).v(), norm_rhs(*self, ii, jj)));
                            assert(!val_fits(elim_rhs(*self, ii, jj, rr)));
                            assert(!elim_row_fits(*self, ii, jj, rr));
                        }
                        return Err(LinearProblemError::Overflow);
                    },
                };
                proof {
                    assert(pr.v() == mul_val(self.at(rr, jj).v(), norm_rhs(*self, ii, jj)));
                    assert(val_fits(mul_val(self.at(rr, jj).v(), norm_rhs(*self, ii, jj))));
                    assert(er.v() == elim_rhs(*self, ii, jj, rr));
                    assert(val_fits(elim_rhs(*self, ii, jj, rr)));
                    assert forall|t: int|
                        0 <= t < self.width() implies #[trigger] elim_term_fits(
                        *self,
                        ii,
                        jj,
                        rr,
                        t,
                    ) by {}
                    assert(elim_row_fits(*self, ii, jj, rr));
                }
                new_rows.push(ConstraintEquation { coefs: ecoefs, rhs: er });
            }
            row = row + 1;
        }
        let objf = self.objective.coefs[j];
        proof {
            assert(self.obj(jj).wf());
        }
        let mut nobj: Vec<Rat> = Vec::new();
        let mut u: usize = 0;
        while u < width
            invariant
                u <= width,
                nobj@.len() == u,
                forall|t: int|
                    0 <= t < u ==> (#[trigger] nobj@[t]).wf() && nobj@[t].v() == elim_obj(
                        *self,
                        ii,
                        jj,
                        t,
                    ),
                forall|t: int| 0 <= t < u ==> #[trigger] obj_term_fits(*self, ii, jj, t),
            decreases width - u,
        {
            proof {
                assert(self.obj(u as int).wf());
                assert(ncoefs@[u as int].v() == norm_entry(*self, ii, jj, u as int));
            }
            let p = match rat_mul(objf, ncoefs[u]) {
                Some(x) => x,
                None => {
                    proof {
                        assert(!val_fits(
                            mul_val(self.obj(jj).v(), norm_entry(*self, ii, jj, u as int)),
                        ));
                        assert(!obj_term_fits(*self, ii, jj, u as int));
                        assert(!elim_obj_fits(*self, ii, jj));
                    }
                    return Err(LinearProblemError::Overflow);
                },
            };
            let e = match rat_sub(self.objective.coefs[u], p) {
                Some(x) => x,
                None => {
                    proof {
                        assert(p.v() == mul_val(
                            self.obj(jj).v(),
                            norm_entry(*self, ii, jj, u as int),
                        ));
                        assert(!val_fits(elim_obj(*self, ii, jj, u as int)));
                        assert(!obj_term_fits(*self, ii, jj, u as int));
                        assert(!elim_obj_fits(*self, ii, jj));
                    }
                    return Err(LinearProblemError::Overflow);
                },
            };
            proof {
                assert(p.v() == mul_val(self.obj(jj).v(), norm_entry(*self, ii, jj, u as int)));
                assert(val_fits(
                    mul_val(self.obj(jj).v(), norm_entry(*self, ii, jj, u as int)),
                ));
                assert(e.v() == elim_obj(*self, ii, jj, u as int));
                assert(val_fits(elim_obj(*self, ii, jj, u as int)));
                assert(obj_term_fits(*self, ii, jj, u as int));
            }
            nobj.push(e);
            u = u + 1;
        }
        proof {
            assert forall|t: int| 0 <= t < self.width() implies #[trigger] obj_term_fits(
                *self,
                ii,
                jj,
                t,
            ) by {}
            assert(elim_obj_fits(*self, ii, jj));
            assert(step_fits(*self, ii, jj));
        }
        let s1 = Simplex { constraints: new_rows, objective: Objective::new(nobj) };
        proof {
            assert(s1.wf());
            assert(stepped(*self, s1, ii, jj));
        }
        Ok(s1)
    }

    /// One pivot step. With `s` for the tableau before the call:
    /// - `Ok(Optimal)` exactly when no objective coefficient of `s` is
    ///   negative; the tableau is then left unchanged, so further calls
    ///   keep reporting `Optimal` on the unchanged tableau;
    /// - `Err(Unbound)` exactly when the entering column of `s` has no
    ///   positive entry; the tableau is left unchanged;
    /// - `Err(Overflow)` exactly when the entering and leaving rules
    ///   pick a pivot but an exact entry of the updated tableau (or an
    ///   intermediate ratio or product) does not fit in a machine
    ///   word; the tableau is left unchanged;
    /// - `Ok(Continuing { pivot_row, pivot_col })` otherwise: the named
    ///   row and column are the unique choices of Dantzig's rule and
    ///   the minimum-ratio test, and the tableau now holds the pivot
    ///   update of `s` on them.
    pub fn solve(&mut self) -> (r: Result<SolveStep, LinearProblemError>)
        requires
            old(self).wf(),
        ensures
            final(self).wf(),
            r == Ok::<SolveStep, LinearProblemError>(SolveStep::Optimal) <==> is_optimal(
                *old(self),
            ),
            is_optimal(*old(self)) ==> *final(self) == *old(self),
            r == Err::<SolveStep, LinearProblemError>(LinearProblemError::Unbound) <==> (
            exists|j: int| is_pivot_col(*old(self), j) && col_unbounded(*old(self), j)),
            r == Err::<SolveStep, LinearProblemError>(LinearProblemError::Overflow) <==> (
            exists|j: int|
                is_pivot_col(*old(self), j) && !col_unbounded(*old(self), j) && (!ratios_fit(
                    *old(self),
                    j,
                ) || exists|i: int| is_pivot_row(*old(self), i, j) && !step_fits(*old(self), i, j))),
            r is Err ==> *final(self) == *old(self),
            r is Err ==> (r == Err::<SolveStep, LinearProblemError>(LinearProblemError::Unbound)
                || r == Err::<SolveStep, LinearProblemError>(LinearProblemError::Overflow)),
            r matches Ok(step) ==> (step matches SolveStep::Continuing { pivot_row, pivot_col }
                ==> is_pivot_col(*old(self), pivot_col as int) && is_pivot_row(
                *old(self),
                pivot_row as int,
                pivot_col as int,
            ) && ratios_fit(*old(self), pivot_col as int) && step_fits(
                *old(self),
                pivot_row as int,
                pivot_col as int,
            ) && stepped(*old(self), *final(self), pivot_row as int, pivot_col as int)),
    {
        let j = match self.find_pivot_col() {
            None => {
                return Ok(SolveStep::Optimal);
            },
            Some(j) => j,
        };
        let ghost jj: int = j as int;
        proof {
            assert(self.obj(jj).num < 0);
            assert forall|j0: int| is_pivot_col(*self, j0) implies j0 == jj by {
                lemma_pivot_col_unique(*self, j0, jj);
            }
        }
        let i = match self.find_pivot_row(j) {
            Err(e) => {
                proof {
                    if col_unbounded(*self, jj) {
                        assert forall|t: int|
                            0 <= t < self.n_rows() && self.at(t, jj).num > 0 implies val_fits(
                            ratio(*self, t, jj),
                        ) by {}
                        assert(ratios_fit(*self, jj));
                    }
                    assert(is_pivot_col(*self, jj) && !col_unbounded(*self, jj) && !ratios_fit(
                        *self,
                        jj,
                    ));
                }
                return Err(e);
            },
            Ok(None) => {
                proof {
                    assert(is_pivot_col(*self, jj) && col_unbounded(*self, jj));
                }
                return Err(LinearProblemError::Unbound);
            },
            Ok(Some(i)) => i,
        };
        let ghost ii: int = i as int;
        proof {
            assert(self.at(ii, jj).num > 0);
            assert forall|i0: int| is_pivot_row(*self, i0, jj) implies i0 == ii by {
                lemma_pivot_row_unique(*self, i0, ii, jj);
            }
        }
        match self.pivot_update(i, j) {
            Ok(s1) => {
                *self = s1;
                Ok(SolveStep::Continuing { pivot_row: i, pivot_col: j })
            },
            Err(e) => {
                proof {
                    assert(is_pivot_col(*old(self), jj) && !col_unbounded(*old(self), jj) && (
                    is_pivot_row(*old(self), ii, jj) && !step_fits(*old(self), ii, jj)));
                }
                Err(e)
            },
        }
    }
}

} // verus!
