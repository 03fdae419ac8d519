use vstd::prelude::*;

use crate::error::SlalError;
use crate::error::SlalErr;
use crate::matrix::Matrix;
use crate::matrix::lemma_flat_index;
use crate::rational::MatrixR;
use crate::rational::Rat;
use crate::rational::Rational;
use crate::rational::rat_div;
use crate::rational::rat_div_ok;
use crate::rational::rat_int;
use crate::rational::rat_is_zero;
use crate::rational::rat_mul;
use crate::rational::rat_mul_ok;
use crate::rational::rat_sub;
use crate::rational::rat_sub_ok;
use crate::scalar::WideScalar;
use crate::structure::lower_tri_grid;
use crate::structure::upper_tri_grid;

verus! {

/// The Doolittle coefficient of the square grid `g` at row `j`, column
/// `i`: below the diagonal (`i < j`) the lower factor's entry, on and
/// above it the upper factor's. The recurrence is the canonical one: each
/// entry is the grid entry minus the already-known lower-times-upper
/// partial products, the lower entries divided by their column's pivot.
pub open spec fn lu(g: Seq<Seq<int>>, j: int, i: int) -> Rat
    decreases j, i, 1int, 0int,
    when 0 <= j && 0 <= i
{
    if i < j {
        rat_div(lu_acc(g, j, i, i), lu(g, i, i))
    } else {
        lu_acc(g, j, i, j)
    }
}

/// The running value of the Doolittle recurrence at `(j, i)` after the
/// first `k` products have been subtracted from the grid entry.
pub open spec fn lu_acc(g: Seq<Seq<int>>, j: int, i: int, k: int) -> Rat
    decreases j, i, 0int, k,
    when 0 <= j && 0 <= i && 0 <= k && k <= i && (i < j || k <= j)
{
    if k <= 0 {
        rat_int(g[j][i])
    } else {
        rat_sub(lu_acc(g, j, i, k - 1), rat_mul(lu(g, j, k - 1), lu(g, k - 1, i)))
    }
}

/// The entry of the upper-triangular factor at `(j, i)`: the Doolittle
/// coefficient on and above the diagonal, exact zero below it.
pub open spec fn u_entry(g: Seq<Seq<int>>, j: int, i: int) -> Rat {
    if i >= j {
        lu(g, j, i)
    } else {
        rat_int(0)
    }
}

/// The entry of the lower-triangular factor at `(j, i)`: the Doolittle
/// coefficient below the diagonal, one on it, exact zero above it.
pub open spec fn l_entry(g: Seq<Seq<int>>, j: int, i: int) -> Rat {
    if i < j {
        lu(g, j, i)
    } else if i == j {
        rat_int(1)
    } else {
        rat_int(0)
    }
}

/// Every diagonal pivot of the decomposition of `g` is nonzero: the
/// condition under which the triangular form exists.
pub open spec fn pivots_ok(g: Seq<Seq<int>>, n: int) -> bool {
    forall|t: int| 0 <= t < n ==> !rat_is_zero(#[trigger] lu(g, t, t))
}

/// Room in the promoted machine kind for the `k`-th subtraction step of
/// the recurrence at `(j, i)`.
pub open spec fn lu_step_ok(g: Seq<Seq<int>>, j: int, i: int, k: int) -> bool {
    rat_mul_ok(lu(g, j, k - 1), lu(g, k - 1, i)) && rat_sub_ok(
        lu_acc(g, j, i, k - 1),
        rat_mul(lu(g, j, k - 1), lu(g, k - 1, i)),
    )
}

/// Room in the promoted machine kind for the pivot division at `(j, i)`.
pub open spec fn lu_div_ok_at(g: Seq<Seq<int>>, j: int, i: int) -> bool {
    rat_div_ok(lu_acc(g, j, i, i), lu(g, i, i))
}

/// Room in the promoted machine kind for every intermediate value of the
/// whole decomposition of the square grid `g` of size `n`.
pub open spec fn lu_fits(g: Seq<Seq<int>>, n: int) -> bool {
    &&& forall|j: int, i: int, k: int|
        0 <= j < n && 0 <= i < n && 1 <= k <= (if i < j {
            i
        } else {
            j
        }) ==> #[trigger] lu_step_ok(g, j, i, k)
    &&& forall|j: int, i: int| 0 <= i < j < n ==> #[trigger] lu_div_ok_at(g, j, i)
}

/// Doolittle's method on the promoted grid: walks the rows in order,
/// filling the lower and upper factors entry by entry, and fails at the
/// first zero pivot, where the decomposition is undefined (no row
/// exchange is attempted). With exact arithmetic no rounding-noise
/// threshold is needed: entries outside the triangle are exact zeros.
pub(crate) fn doolittle_upper(m: &Matrix<i128>) -> (r: SlalErr<MatrixR>)
    requires
        m.wf(),
        m.is_square(),
        lu_fits(m@, m.width as int),
    ensures
        r is Ok <==> pivots_ok(m@, m.width as int),
        r matches Ok(u) ==> u.wf() && u.width == m.width && u.height == m.height && (forall|
            j: int,
            i: int,
        | 0 <= j < m.height && 0 <= i < m.width ==> u@[j][i] == #[trigger] u_entry(m@, j, i)),
        r is Err ==> r == SlalErr::<MatrixR>::Err(SlalError::TriangularFormUnavailable),
{
    let n = m.size().0;
    let ghost g = m@;
    let mut l: Vec<Rational> = Vec::new();
    let mut u: Vec<Rational> = Vec::new();
    let mut j: usize = 0;
    while j < n
        invariant
            0 <= j <= n,
            n == m.width == m.height,
            m.wf(),
            g == m@,
            lu_fits(g, n as int),
            l@.len() == j * n,
            u@.len() == j * n,
            forall|k: int| 0 <= k < l@.len() ==> (#[trigger] l@[k]).wf(),
            forall|k: int| 0 <= k < u@.len() ==> (#[trigger] u@[k]).wf(),
            forall|j2: int, i2: int|
                0 <= j2 < j && 0 <= i2 < n ==> l@[j2 * n + i2]@ == #[trigger] l_entry(g, j2, i2),
            forall|j2: int, i2: int|
                0 <= j2 < j && 0 <= i2 < n ==> u@[j2 * n + i2]@ == #[trigger] u_entry(g, j2, i2),
            forall|t: int| 0 <= t < j ==> !rat_is_zero(#[trigger] lu(g, t, t)),
        decreases n - j,
    {
        let mut i: usize = 0;
        while i < n
            invariant
                0 <= i <= n,
                0 <= j < n,
                n == m.width == m.height,
                m.wf(),
                g == m@,
                lu_fits(g, n as int),
                l@.len() == j * n + i,
                u@.len() == j * n + i,
                forall|k: int| 0 <= k < l@.len() ==> (#[trigger] l@[k]).wf(),
                forall|k: int| 0 <= k < u@.len() ==> (#[trigger] u@[k]).wf(),
                forall|j2: int, i2: int|
                    0 <= j2 < j && 0 <= i2 < n ==> l@[j2 * n + i2]@ == #[trigger] l_entry(
                        g,
                        j2,
                        i2,
                    ),
                forall|j2: int, i2: int|
                    0 <= j2 < j && 0 <= i2 < n ==> u@[j2 * n + i2]@ == #[trigger] u_entry(
                        g,
                        j2,
                        i2,
                    ),
                forall|i2: int|
                    0 <= i2 < i ==> l@[j * n + i2]@ == #[trigger] l_entry(g, j as int, i2),
                forall|i2: int|
                    0 <= i2 < i ==> u@[j * n + i2]@ == #[trigger] u_entry(g, j as int, i2),
                forall|t: int| 0 <= t < j ==> !rat_is_zero(#[trigger] lu(g, t, t)),
                i > j ==> !rat_is_zero(lu(g, j as int, j as int)),
            decreases n - i,
        {
            let kmax = if i < j {
                i
            } else {
                j
            };
            let llen = l.len();
            let ulen = u.len();
            let mut acc = Rational::from_wide(m.get(j, i));
            let mut t: usize = 0;
            while t < kmax
                invariant
                    0 <= t <= kmax,
                    kmax == (if i < j {
                        i as int
                    } else {
                        j as int
                    }),
                    0 <= i < n,
                    0 <= j < n,
                    n == m.width == m.height,
                    m.wf(),
                    g == m@,
                    lu_fits(g, n as int),
                    llen == l@.len() == j * n + i,
                    ulen == u@.len() == j * n + i,
                    forall|k: int| 0 <= k < l@.len() ==> (#[trigger] l@[k]).wf(),
                    forall|k: int| 0 <= k < u@.len() ==> (#[trigger] u@[k]).wf(),
                    forall|j2: int, i2: int|
                        0 <= j2 < j && 0 <= i2 < n ==> l@[j2 * n + i2]@ == #[trigger] l_entry(
                            g,
                            j2,
                            i2,
                        ),
                    forall|j2: int, i2: int|
                        0 <= j2 < j && 0 <= i2 < n ==> u@[j2 * n + i2]@ == #[trigger] u_entry(
                            g,
                            j2,
                            i2,
                        ),
                    forall|i2: int|
                        0 <= i2 < i ==> l@[j * n + i2]@ == #[trigger] l_entry(g, j as int, i2),
                    acc.wf(),
                    acc@ == lu_acc(g, j as int, i as int, t as int),
                decreases kmax - t,
            {
                proof {
                    assert(t < j && t < i);
                    lemma_flat_index(j as int, t as int, n as int, n as int);
                    assert(j * n + t < llen);
                    lemma_flat_index(t as int, i as int, n as int, j as int);
                    assert(t * n + i < ulen);
                    assert(l@[j * n + t]@ == l_entry(g, j as int, t as int));
                    assert(u@[t * n + i]@ == u_entry(g, t as int, i as int));
                    assert(l_entry(g, j as int, t as int) == lu(g, j as int, t as int));
                    assert(u_entry(g, t as int, i as int) == lu(g, t as int, i as int));
                    assert(1 <= t + 1 <= (if (i as int) < j {
                        i as int
                    } else {
                        j as int
                    }));
                    assert(lu_step_ok(g, j as int, i as int, t + 1));
                }
                let lv = l[j * n + t];
                let uv = u[t * n + i];
                acc = acc.sub(&lv.mul(&uv));
                t = t + 1;
            }
            if i < j {
                proof {
                    lemma_flat_index(i as int, i as int, n as int, j as int);
                    assert(i * n + i < ulen);
                    assert(u@[i * n + i]@ == u_entry(g, i as int, i as int));
                    assert(u_entry(g, i as int, i as int) == lu(g, i as int, i as int));
                    assert(!rat_is_zero(lu(g, i as int, i as int)));
                    assert(lu_div_ok_at(g, j as int, i as int));
                }
                let pivot = u[i * n + i];
                let lval = acc.div(&pivot);
                proof {
                    assert(lval@ == lu(g, j as int, i as int));
                    assert(lval@ == l_entry(g, j as int, i as int));
                }
                l.push(lval);
                u.push(Rational::from_int(0));
            } else if i == j {
                if acc.is_zero() {
                    proof {
                        assert(lu(g, j as int, j as int) == acc@);
                        assert(rat_is_zero(lu(g, j as int, j as int)));
                        assert(!pivots_ok(g, n as int));
                    }
                    return Err(SlalError::TriangularFormUnavailable);
                }
                proof {
                    assert(acc@ == lu(g, j as int, i as int));
                    assert(acc@ == u_entry(g, j as int, i as int));
                }
                l.push(Rational::from_int(1));
                u.push(acc);
            } else {
                proof {
                    assert(acc@ == lu(g, j as int, i as int));
                    assert(acc@ == u_entry(g, j as int, i as int));
                }
                l.push(Rational::from_int(0));
                u.push(acc);
            }
            i = i + 1;
            proof {
                assert forall|j2: int, i2: int|
                    0 <= j2 < j && 0 <= i2 < n implies l@[j2 * n + i2]@ == #[trigger] l_entry(
                    g,
                    j2,
                    i2,
                ) by {
                    lemma_flat_index(j2, i2, n as int, j as int);
                }
                assert forall|j2: int, i2: int|
                    0 <= j2 < j && 0 <= i2 < n implies u@[j2 * n + i2]@ == #[trigger] u_entry(
                    g,
                    j2,
                    i2,
                ) by {
                    lemma_flat_index(j2, i2, n as int, j as int);
                }
            }
        }
        j = j + 1;
        proof {
            assert(l@.len() == (j - 1) * n + n == j * n) by (nonlinear_arith)
                requires
                    l@.len() == (j - 1) * n + n,
            ;
            assert(u@.len() == j * n);
            assert forall|j2: int, i2: int|
                0 <= j2 < j && 0 <= i2 < n implies l@[j2 * n + i2]@ == #[trigger] l_entry(
                g,
                j2,
                i2,
            ) by {
                lemma_flat_index(j2, i2, n as int, j as int);
            }
            assert forall|j2: int, i2: int|
                0 <= j2 < j && 0 <= i2 < n implies u@[j2 * n + i2]@ == #[trigger] u_entry(
                g,
                j2,
                i2,
            ) by {
                lemma_flat_index(j2, i2, n as int, j as int);
            }
        }
    }
    let res = MatrixR { m: u, width: n, height: n };
    proof {
        assert(res.m@.len() == n * n) by (nonlinear_arith)
            requires
                res.m@.len() == n * (n as int),
        ;
        assert(res.wf()) by (nonlinear_arith)
            requires
                res.m@.len() == n * n,
                res.width == n,
                res.height == n,
                forall|k: int| 0 <= k < res.m@.len() ==> (#[trigger] res.m@[k]).wf(),
        ;
        assert forall|j2: int, i2: int|
            0 <= j2 < n && 0 <= i2 < n implies res@[j2][i2] == #[trigger] u_entry(g, j2, i2) by {
            lemma_flat_index(j2, i2, n as int, n as int);
        }
    }
    Ok(res)
}

/// Structural checks for triangular shape, and Doolittle-style
/// triangularization into exact ratios.
pub trait TriangularMatrix {
    type Output;

    /// The validity the structural checks ask of the value.
    spec fn tri_req(&self) -> bool;

    /// What the upper-triangular check reports.
    spec fn upper_check_spec(&self) -> bool;

    /// What the lower-triangular check reports.
    spec fn lower_check_spec(&self) -> bool;

    /// What the decomposition asks of the value: validity, and room in the
    /// promoted kind for its arithmetic.
    spec fn decomp_req(&self) -> bool;

    /// Everything the upper triangularization promises of its result.
    spec fn upper_post(&self, r: Self::Output) -> bool;

    /// Everything the lower triangularization promises of its result.
    spec fn lower_post(&self, r: Self::Output) -> bool;

    /// Whether the matrix is square with zero everywhere below the
    /// diagonal.
    fn is_upper_triangular(&self) -> (r: bool)
        requires
            self.tri_req(),
        ensures
            r == self.upper_check_spec(),
    ;

    /// Whether the matrix is square with zero everywhere above the
    /// diagonal.
    fn is_lower_triangular(&self) -> (r: bool)
        requires
            self.tri_req(),
        ensures
            r == self.lower_check_spec(),
    ;

    /// Computes the upper-triangular factor of a square matrix.
    fn upper_triangular(&self) -> (r: Self::Output)
        requires
            self.decomp_req(),
        ensures
            self.upper_post(r),
    ;

    /// Computes the lower-triangular factor: the transpose of the upper
    /// factor of the same decomposition.
    fn lower_triangular(&self) -> (r: Self::Output)
        requires
            self.decomp_req(),
        ensures
            self.lower_post(r),
    ;
}

impl<T: WideScalar> TriangularMatrix for Matrix<T> {
    type Output = SlalErr<MatrixR>;

    /// The checks walk the storage, so the shape must match it.
    open spec fn tri_req(&self) -> bool {
        self.wf()
    }

    /// Square, and zero below the diagonal.
    open spec fn upper_check_spec(&self) -> bool {
        self.is_square() && upper_tri_grid(self@)
    }

    /// Square, and zero above the diagonal.
    open spec fn lower_check_spec(&self) -> bool {
        self.is_square() && lower_tri_grid(self@, self.width as int)
    }

    /// A valid matrix whose decomposition, if square, stays inside the
    /// promoted kind.
    open spec fn decomp_req(&self) -> bool {
        self.wf() && (self.is_square() ==> lu_fits(self@, self.width as int))
    }

    /// A non-square matrix is rejected; otherwise the result exists
    /// exactly when every pivot is nonzero, and holds the upper Doolittle
    /// factor of the promoted grid.
    open spec fn upper_post(&self, r: SlalErr<MatrixR>) -> bool {
        &&& !self.is_square() ==> r == SlalErr::<MatrixR>::Err(SlalError::NotSquareMatrix)
        &&& self.is_square() ==> {
            &&& r is Ok <==> pivots_ok(self@, self.width as int)
            &&& r matches Ok(u) ==> u.wf() && u.width == self.width && u.height == self.height && (
            forall|j: int, i: int|
                0 <= j < self.height && 0 <= i < self.width ==> u@[j][i] == #[trigger] u_entry(
                    self@,
                    j,
                    i,
                ))
            &&& r is Err ==> r == SlalErr::<MatrixR>::Err(SlalError::TriangularFormUnavailable)
        }
    }

    /// As `upper_post`, with the result transposed.
    open spec fn lower_post(&self, r: SlalErr<MatrixR>) -> bool {
        &&& !self.is_square() ==> r == SlalErr::<MatrixR>::Err(SlalError::NotSquareMatrix)
        &&& self.is_square() ==> {
            &&& r is Ok <==> pivots_ok(self@, self.width as int)
            &&& r matches Ok(l) ==> l.wf() && l.width == self.width && l.height == self.height && (
            forall|j: int, i: int|
                0 <= j < self.height && 0 <= i < self.width ==> l@[j][i] == #[trigger] u_entry(
                    self@,
                    i,
                    j,
                ))
            &&& r is Err ==> r == SlalErr::<MatrixR>::Err(SlalError::TriangularFormUnavailable)
        }
    }

    fn is_upper_triangular(&self) -> (r: bool) {
        if !self.is_sq() {
            return false;
        }
        let n = self.size().0;
        let mut j: usize = 0;
        while j < n
            invariant
                0 <= j <= n,
                n == self.width == self.height,
                self.wf(),
                forall|j2: int, i2: int|
                    0 <= j2 < j && 0 <= i2 < j2 ==> #[trigger] self@[j2][i2] == 0,
            decreases n - j,
        {
            let mut i: usize = 0;
            while i < j
                invariant
                    0 <= i <= j,
                    0 <= j < n,
                    n == self.width == self.height,
                    self.wf(),
                    forall|j2: int, i2: int|
                        0 <= j2 < j && 0 <= i2 < j2 ==> #[trigger] self@[j2][i2] == 0,
                    forall|i2: int| 0 <= i2 < i ==> #[trigger] self@[j as int][i2] == 0,
                decreases j - i,
            {
                if !self.get(j, i).is_zero() {
                    return false;
                }
                i = i + 1;
            }
            j = j + 1;
        }
        true
    }

    fn is_lower_triangular(&self) -> (r: bool) {
        if !self.is_sq() {
            return false;
        }
        let n = self.size().0;
        let mut j: usize = 0;
        while j < n
            invariant
                0 <= j <= n,
                n == self.width == self.height,
                self.wf(),
                forall|j2: int, i2: int|
                    0 <= j2 < j && j2 < i2 < n ==> #[trigger] self@[j2][i2] == 0,
            decreases n - j,
        {
            let mut i: usize = j + 1;
            while i < n
                invariant
                    j + 1 <= i <= n,
                    0 <= j < n,
                    n == self.width == self.height,
                    self.wf(),
                    forall|j2: int, i2: int|
                        0 <= j2 < j && j2 < i2 < n ==> #[trigger] self@[j2][i2] == 0,
                    forall|i2: int| j < i2 < i ==> #[trigger] self@[j as int][i2] == 0,
                decreases n - i,
            {
                if !self.get(j, i).is_zero() {
                    return false;
                }
                i = i + 1;
            }
            j = j + 1;
        }
        true
    }

    fn upper_triangular(&self) -> (r: SlalErr<MatrixR>) {
        if !self.is_sq() {
            return Err(SlalError::NotSquareMatrix);
        }
        let wide = self.promote();
        doolittle_upper(&wide)
    }

    fn lower_triangular(&self) -> (r: SlalErr<MatrixR>) {
        if !self.is_sq() {
            return Err(SlalError::NotSquareMatrix);
        }
        let wide = self.promote();
        match doolittle_upper(&wide) {
            Ok(mut u) => {
                u.t();
                Ok(u)
            },
            Err(e) => Err(e),
        }
    }
}

} // verus!
