use vstd::prelude::*;

use crate::determinant::det2_val;
use crate::determinant::det_spec_ok;
use crate::determinant::det_spec_val;
use crate::determinant::diag_prod;
use crate::determinant::tri_shaped;
use crate::inverse::cof_entry;
use crate::matrix::grid_rect;
use crate::matrix::grid_transpose;
use crate::rational::Rat;
use crate::rational::rat_add;
use crate::rational::rat_div;
use crate::rational::rat_eq;
use crate::rational::rat_int;
use crate::rational::rat_is_zero;
use crate::rational::rat_mul;
use crate::rational::lemma_nonzero_mul;
use crate::rational::rat_sub;
use crate::structure::diag_grid;
use crate::structure::diag_only_grid;
use crate::structure::lower_tri_grid;
use crate::structure::minor_grid;
use crate::structure::upper_tri_grid;
use crate::triangular::lu;
use crate::triangular::lu_acc;
use crate::triangular::pivots_ok;

verus! {

/// The entry at `(j, i)` that `Inverse::inverse` promises: the cofactor
/// at `(i, j)` divided by the determinant.
pub open spec fn inv_entry(g: Seq<Seq<int>>, n: int, j: int, i: int) -> Rat {
    rat_div(cof_entry(g, n, i, j), det_spec_val(g, n))
}

/// Entry `(j, i)` of a two-by-two matrix multiplied with its inverse.
pub open spec fn two_by_two_times_inv(g: Seq<Seq<int>>, j: int, i: int) -> Rat {
    rat_add(
        rat_mul(rat_int(g[j][0]), inv_entry(g, 2, 0, i)),
        rat_mul(rat_int(g[j][1]), inv_entry(g, 2, 1, i)),
    )
}

/// A matrix times its inverse is the identity: proved here exactly, in
/// the two-by-two case, from the entries that `Determinant::det`,
/// `Cofactor::cofactor` and `Inverse::inverse` promise; larger sizes are
/// exercised by tests on concrete values.
pub proof fn lemma_inverse_identity_two(g: Seq<Seq<int>>, j: int, i: int)
    requires
        g.len() == 2,
        grid_rect(g, 2),
        !rat_is_zero(det_spec_val(g, 2)),
        0 <= j < 2,
        0 <= i < 2,
    ensures
        rat_eq(
            two_by_two_times_inv(g, j, i),
            rat_int(
                if j == i {
                    1
                } else {
                    0
                },
            ),
        ),
{
    let a = g[0][0];
    let b = g[0][1];
    let c = g[1][0];
    let d = g[1][1];
    let dv = det_spec_val(g, 2);
    assert(diag_prod(g, 0) == 1);
    assert(diag_prod(g, 1) == 1 * g[0][0]);
    assert(diag_prod(g, 2) == diag_prod(g, 1) * g[1][1]);
    if tri_shaped(g, 2) {
        if upper_tri_grid(g) {
            assert(g[1][0] == 0);
        } else {
            assert(lower_tri_grid(g, 2));
            assert(g[0][1] == 0);
        }
        assert(dv == rat_int(diag_prod(g, 2)));
        assert(diag_prod(g, 2) == a * d - c * b) by (nonlinear_arith)
            requires
                diag_prod(g, 2) == (1 * g[0][0]) * g[1][1],
                a == g[0][0],
                d == g[1][1],
                c == g[1][0],
                b == g[0][1],
                c == 0 || b == 0,
        ;
    } else {
        assert(dv == rat_int(det2_val(g)));
    }
    assert(dv == rat_int(a * d - c * b));
    let big_d = a * d - c * b;
    // the four one-by-one minors and their signed determinants
    assert(minor_grid(g, 2, 0, 0)[0][0] == d);
    assert(minor_grid(g, 2, 0, 1)[0][0] == c);
    assert(minor_grid(g, 2, 1, 0)[0][0] == b);
    assert(minor_grid(g, 2, 1, 1)[0][0] == a);
    assert(upper_tri_grid(minor_grid(g, 2, 0, 0)));
    assert(upper_tri_grid(minor_grid(g, 2, 0, 1)));
    assert(upper_tri_grid(minor_grid(g, 2, 1, 0)));
    assert(upper_tri_grid(minor_grid(g, 2, 1, 1)));
    assert(diag_prod(minor_grid(g, 2, 0, 0), 1) == diag_prod(minor_grid(g, 2, 0, 0), 0) * d);
    assert(diag_prod(minor_grid(g, 2, 0, 1), 1) == diag_prod(minor_grid(g, 2, 0, 1), 0) * c);
    assert(diag_prod(minor_grid(g, 2, 1, 0), 1) == diag_prod(minor_grid(g, 2, 1, 0), 0) * b);
    assert(diag_prod(minor_grid(g, 2, 1, 1), 1) == diag_prod(minor_grid(g, 2, 1, 1), 0) * a);
    assert(det_spec_val(minor_grid(g, 2, 0, 0), 1) == rat_int(d));
    assert(det_spec_val(minor_grid(g, 2, 0, 1), 1) == rat_int(c));
    assert(det_spec_val(minor_grid(g, 2, 1, 0), 1) == rat_int(b));
    assert(det_spec_val(minor_grid(g, 2, 1, 1), 1) == rat_int(a));
    assert(cof_entry(g, 2, 0, 0) == rat_int(d));
    assert(cof_entry(g, 2, 0, 1) == rat_int(-c));
    assert(cof_entry(g, 2, 1, 0) == rat_int(-b));
    assert(cof_entry(g, 2, 1, 1) == rat_int(a));
    let s = two_by_two_times_inv(g, j, i);
    if j == 0 && i == 0 {
        assert(s.n * 1 == 1 * s.d) by (nonlinear_arith)
            requires
                s.n == (a * (d * 1)) * (1 * big_d) + (b * (-c * 1)) * (1 * big_d),
                s.d == (1 * (1 * big_d)) * (1 * (1 * big_d)),
                big_d == a * d - c * b,
        ;
    } else if j == 0 && i == 1 {
        assert(s.n * 1 == 0 * s.d) by (nonlinear_arith)
            requires
                s.n == (a * (-b * 1)) * (1 * big_d) + (b * (a * 1)) * (1 * big_d),
                s.d == (1 * (1 * big_d)) * (1 * (1 * big_d)),
        ;
    } else if j == 1 && i == 0 {
        assert(s.n * 1 == 0 * s.d) by (nonlinear_arith)
            requires
                s.n == (c * (d * 1)) * (1 * big_d) + (d * (-c * 1)) * (1 * big_d),
                s.d == (1 * (1 * big_d)) * (1 * (1 * big_d)),
        ;
    } else {
        assert(s.n * 1 == 1 * s.d) by (nonlinear_arith)
            requires
                s.n == (c * (-b * 1)) * (1 * big_d) + (d * (a * 1)) * (1 * big_d),
                s.d == (1 * (1 * big_d)) * (1 * (1 * big_d)),
                big_d == a * d - c * b,
        ;
    }
}

/// Transposition is involutive: transposing a rectangular grid twice
/// gives the grid back. Together with the contract of `Matrix::t`, which
/// says each call transposes the view, applying `t` twice restores a
/// matrix; a vertex's transpose only flips its orientation flag, so there
/// the involution is immediate from the contract of `Vertex::t`.
pub proof fn lemma_transpose_involutive(g: Seq<Seq<int>>, w: int)
    requires
        w >= 0,
        grid_rect(g, w),
    ensures
        grid_transpose(grid_transpose(g, w), g.len() as int) == g,
{
    let t = grid_transpose(g, w);
    let tt = grid_transpose(t, g.len() as int);
    assert forall|j: int| 0 <= j < g.len() implies tt[j] == g[j] by {
        assert forall|i: int| 0 <= i < w implies tt[j][i] == g[j][i] by {
            assert(t[i][j] == g[j][i]);
        }
        assert(tt[j] =~= g[j]);
    }
    assert(tt =~= g);
}

/// A matrix built from a diagonal is diagonal: every entry off the
/// diagonal of `diag_grid(d)` is zero. Together with the contracts of
/// `DiagonalMatrix::diagonal` and `DiagonalMatrix::is_diagonal`, the
/// check reports true on every constructed diagonal matrix.
pub proof fn lemma_diagonal_is_diagonal(d: Seq<int>)
    ensures
        diag_only_grid(diag_grid(d), d.len() as int),
{
    assert forall|j: int, i: int|
        0 <= j < diag_grid(d).len() && 0 <= i < d.len() && i != j implies #[trigger] diag_grid(
        d,
    )[j][i] == 0 by {
    }
}

/// The determinant of a triangular matrix is the product of its diagonal
/// entries: on a triangular shape the determinant is defined and takes
/// its fast path, whose value `Determinant::det` promises exactly.
pub proof fn lemma_det_of_triangular(g: Seq<Seq<int>>, n: int)
    requires
        tri_shaped(g, n),
    ensures
        det_spec_ok(g, n),
        det_spec_val(g, n) == rat_int(diag_prod(g, n)),
{
}

/// Below the diagonal of an upper-triangular grid the running Doolittle
/// value stays in the class of the grid entry: every subtracted product
/// carries a zero-valued lower coefficient.
pub proof fn lemma_lu_acc_upper(g: Seq<Seq<int>>, n: int, j: int, i: int, k: int)
    requires
        upper_tri_grid(g),
        g.len() == n,
        grid_rect(g, n),
        forall|t: int| 0 <= t < n ==> #[trigger] g[t][t] != 0,
        0 <= j < n,
        0 <= i < n,
        0 <= k <= i,
        i < j || k <= j,
    ensures
        rat_eq(lu_acc(g, j, i, k), rat_int(g[j][i])),
        lu_acc(g, j, i, k).d != 0,
    decreases j, i, 0int, k,
{
    if k <= 0 {
        assert(lu_acc(g, j, i, 0) == rat_int(g[j][i]));
    } else {
        lemma_lu_acc_upper(g, n, j, i, k - 1);
        lemma_lu_upper(g, n, j, k - 1);
        lemma_lu_upper(g, n, k - 1, i);
        let prev = lu_acc(g, j, i, k - 1);
        let lt = lu(g, j, k - 1);
        let ut = lu(g, k - 1, i);
        let term = rat_mul(lt, ut);
        assert(term.n == 0) by (nonlinear_arith)
            requires
                term.n == lt.n * ut.n,
                lt.n == 0,
        ;
        lemma_nonzero_mul(lt.d, ut.d);
        let cur = rat_sub(prev, term);
        assert(cur == lu_acc(g, j, i, k));
        assert(cur.n * 1 == g[j][i] * cur.d) by (nonlinear_arith)
            requires
                cur.n == prev.n * term.d - term.n * prev.d,
                cur.d == prev.d * term.d,
                term.n == 0,
                prev.n * 1 == g[j][i] * prev.d,
        ;
        lemma_nonzero_mul(prev.d, term.d);
    }
}

/// On an upper-triangular grid with nonzero diagonal, every lower
/// Doolittle coefficient is zero-valued and every upper one stays in the
/// class of the grid entry, all with nonzero denominators.
pub proof fn lemma_lu_upper(g: Seq<Seq<int>>, n: int, j: int, i: int)
    requires
        upper_tri_grid(g),
        g.len() == n,
        grid_rect(g, n),
        forall|t: int| 0 <= t < n ==> #[trigger] g[t][t] != 0,
        0 <= j < n,
        0 <= i < n,
    ensures
        i < j ==> lu(g, j, i).n == 0 && lu(g, j, i).d != 0,
        i >= j ==> rat_eq(lu(g, j, i), rat_int(g[j][i])) && lu(g, j, i).d != 0,
    decreases j, i, 1int, 0int,
{
    if i < j {
        lemma_lu_acc_upper(g, n, j, i, i);
        lemma_lu_upper(g, n, i, i);
        let acc = lu_acc(g, j, i, i);
        let piv = lu(g, i, i);
        assert(g[j][i] == 0);
        assert(acc.n == 0) by (nonlinear_arith)
            requires
                acc.n * 1 == g[j][i] * acc.d,
                g[j][i] == 0,
        ;
        assert(piv.n != 0) by (nonlinear_arith)
            requires
                piv.n * 1 == g[i][i] * piv.d,
                g[i][i] != 0,
                piv.d != 0,
        ;
        let l = rat_div(acc, piv);
        assert(l == lu(g, j, i));
        assert(l.n == 0) by (nonlinear_arith)
            requires
                l.n == acc.n * piv.d,
                acc.n == 0,
        ;
        lemma_nonzero_mul(acc.d, piv.n);
    } else {
        lemma_lu_acc_upper(g, n, j, i, j);
        assert(lu(g, j, i) == lu_acc(g, j, i, j));
    }
}

/// The triangularization of an upper-triangular matrix with nonzero
/// diagonal succeeds — every pivot is nonzero — and its upper factor
/// equals the input entry by entry in value. With the contract of
/// `TriangularMatrix::upper_triangular` this pins the factor's diagonal
/// to the input's, so the determinant fast path and the general path
/// agree on such matrices.
pub proof fn lemma_upper_triangular_factor(g: Seq<Seq<int>>, n: int)
    requires
        upper_tri_grid(g),
        g.len() == n,
        grid_rect(g, n),
        forall|t: int| 0 <= t < n ==> #[trigger] g[t][t] != 0,
    ensures
        pivots_ok(g, n),
        forall|j: int, i: int|
            0 <= j < n && j <= i < n ==> rat_eq(#[trigger] lu(g, j, i), rat_int(g[j][i])),
{
    assert forall|j: int, i: int|
        0 <= j < n && j <= i < n implies rat_eq(#[trigger] lu(g, j, i), rat_int(g[j][i])) by {
        lemma_lu_upper(g, n, j, i);
    }
    assert forall|t: int| 0 <= t < n implies !crate::rational::rat_is_zero(
        #[trigger] lu(g, t, t),
    ) by {
        lemma_lu_upper(g, n, t, t);
        let piv = lu(g, t, t);
        assert(piv.n != 0) by (nonlinear_arith)
            requires
                piv.n * 1 == g[t][t] * piv.d,
                g[t][t] != 0,
                piv.d != 0,
        ;
    }
}

/// On a lower-triangular grid with nonzero diagonal the running
/// Doolittle value also stays in the class of the grid entry: every
/// subtracted product carries a zero-valued upper coefficient.
pub proof fn lemma_lu_acc_lower(g: Seq<Seq<int>>, n: int, j: int, i: int, k: int)
    requires
        lower_tri_grid(g, n),
        g.len() == n,
        grid_rect(g, n),
        forall|t: int| 0 <= t < n ==> #[trigger] g[t][t] != 0,
        0 <= j < n,
        0 <= i < n,
        0 <= k <= i,
        i < j || k <= j,
    ensures
        rat_eq(lu_acc(g, j, i, k), rat_int(g[j][i])),
        lu_acc(g, j, i, k).d != 0,
    decreases j, i, 0int, k,
{
    if k <= 0 {
        assert(lu_acc(g, j, i, 0) == rat_int(g[j][i]));
    } else {
        lemma_lu_acc_lower(g, n, j, i, k - 1);
        lemma_lu_lower(g, n, j, k - 1);
        lemma_lu_lower(g, n, k - 1, i);
        let prev = lu_acc(g, j, i, k - 1);
        let lt = lu(g, j, k - 1);
        let ut = lu(g, k - 1, i);
        let term = rat_mul(lt, ut);
        // the upper coefficient sits above the diagonal of row k - 1
        assert(g[k - 1][i] == 0);
        assert(ut.n == 0) by (nonlinear_arith)
            requires
                ut.n * 1 == g[k - 1][i] * ut.d,
                g[k - 1][i] == 0,
        ;
        assert(term.n == 0) by (nonlinear_arith)
            requires
                term.n == lt.n * ut.n,
                ut.n == 0,
        ;
        lemma_nonzero_mul(lt.d, ut.d);
        let cur = rat_sub(prev, term);
        assert(cur == lu_acc(g, j, i, k));
        assert(cur.n * 1 == g[j][i] * cur.d) by (nonlinear_arith)
            requires
                cur.n == prev.n * term.d - term.n * prev.d,
                cur.d == prev.d * term.d,
                term.n == 0,
                prev.n * 1 == g[j][i] * prev.d,
        ;
        lemma_nonzero_mul(prev.d, term.d);
    }
}

/// On a lower-triangular grid with nonzero diagonal, every upper
/// Doolittle coefficient stays in the class of the grid entry — zero
/// above the diagonal — and every coefficient has a nonzero denominator.
pub proof fn lemma_lu_lower(g: Seq<Seq<int>>, n: int, j: int, i: int)
    requires
        lower_tri_grid(g, n),
        g.len() == n,
        grid_rect(g, n),
        forall|t: int| 0 <= t < n ==> #[trigger] g[t][t] != 0,
        0 <= j < n,
        0 <= i < n,
    ensures
        i < j ==> lu(g, j, i).d != 0,
        i >= j ==> rat_eq(lu(g, j, i), rat_int(g[j][i])) && lu(g, j, i).d != 0,
    decreases j, i, 1int, 0int,
{
    if i < j {
        lemma_lu_acc_lower(g, n, j, i, i);
        lemma_lu_lower(g, n, i, i);
        let acc = lu_acc(g, j, i, i);
        let piv = lu(g, i, i);
        assert(piv.n != 0) by (nonlinear_arith)
            requires
                piv.n * 1 == g[i][i] * piv.d,
                g[i][i] != 0,
                piv.d != 0,
        ;
        assert(lu(g, j, i) == rat_div(acc, piv));
        lemma_nonzero_mul(acc.d, piv.n);
    } else {
        lemma_lu_acc_lower(g, n, j, i, j);
        assert(lu(g, j, i) == lu_acc(g, j, i, j));
    }
}

/// The triangularization of a lower-triangular matrix with nonzero
/// diagonal succeeds — every pivot is nonzero — and its upper factor is
/// diagonal, carrying the input's diagonal entries in value. With
/// `lemma_upper_triangular_factor` this settles both triangular shapes:
/// the factor's diagonal product is the input's diagonal product, the
/// determinant of a triangular matrix.
pub proof fn lemma_lower_triangular_factor(g: Seq<Seq<int>>, n: int)
    requires
        lower_tri_grid(g, n),
        g.len() == n,
        grid_rect(g, n),
        forall|t: int| 0 <= t < n ==> #[trigger] g[t][t] != 0,
    ensures
        pivots_ok(g, n),
        forall|t: int| 0 <= t < n ==> rat_eq(#[trigger] lu(g, t, t), rat_int(g[t][t])),
        forall|j: int, i: int| 0 <= j < n && j < i < n ==> (#[trigger] lu(g, j, i)).n == 0,
{
    assert forall|t: int| 0 <= t < n implies rat_eq(#[trigger] lu(g, t, t), rat_int(g[t][t])) by {
        lemma_lu_lower(g, n, t, t);
    }
    assert forall|j: int, i: int|
        0 <= j < n && j < i < n implies (#[trigger] lu(g, j, i)).n == 0 by {
        lemma_lu_lower(g, n, j, i);
        let u = lu(g, j, i);
        assert(g[j][i] == 0);
        assert(u.n == 0) by (nonlinear_arith)
            requires
                u.n * 1 == g[j][i] * u.d,
                g[j][i] == 0,
        ;
    }
    assert forall|t: int| 0 <= t < n implies !crate::rational::rat_is_zero(
        #[trigger] lu(g, t, t),
    ) by {
        lemma_lu_lower(g, n, t, t);
        let piv = lu(g, t, t);
        assert(piv.n != 0) by (nonlinear_arith)
            requires
                piv.n * 1 == g[t][t] * piv.d,
                g[t][t] != 0,
                piv.d != 0,
        ;
    }
}

} // verus!
