use vstd::prelude::*;

use crate::determinant::Determinant;
use crate::determinant::det_fits;
use crate::determinant::det_spec_ok;
use crate::determinant::det_spec_val;
use crate::error::SlalError;
use crate::error::SlalErr;
use crate::matrix::Matrix;
use crate::matrix::lemma_flat_index;
use crate::rational::MatrixR;
use crate::rational::Rat;
use crate::rational::Rational;
use crate::rational::rat_div;
use crate::rational::rat_div_ok;
use crate::rational::rat_int;
use crate::rational::rat_is_zero;
use crate::rational::rat_neg;
use crate::rational::rat_neg_ok;
use crate::scalar::WideScalar;
use crate::structure::minor;
use crate::structure::minor_grid;

verus! {

/// The cofactor of the square grid `g` of size `n` at `(j, i)`: the
/// determinant of the minor without row `j` and column `i`, under the
/// alternating sign pattern. A one-by-one grid has the single cofactor
/// one.
pub open spec fn cof_entry(g: Seq<Seq<int>>, n: int, j: int, i: int) -> Rat {
    if n == 1 {
        rat_int(1)
    } else if j % 2 == i % 2 {
        det_spec_val(minor_grid(g, n, j, i), n - 1)
    } else {
        rat_neg(det_spec_val(minor_grid(g, n, j, i), n - 1))
    }
}

/// Whether every minor determinant of the square grid `g` of size `n` is
/// defined.
pub open spec fn cof_ok(g: Seq<Seq<int>>, n: int) -> bool {
    forall|j: int, i: int|
        0 <= j < n && 0 <= i < n ==> det_spec_ok(#[trigger] minor_grid(g, n, j, i), n - 1)
}

/// Room in the promoted kind for every minor determinant and its sign
/// flip.
pub open spec fn cof_fits(g: Seq<Seq<int>>, n: int) -> bool {
    n >= 2 ==> forall|j: int, i: int|
        0 <= j < n && 0 <= i < n ==> det_fits(#[trigger] minor_grid(g, n, j, i), n - 1)
            && rat_neg_ok(det_spec_val(minor_grid(g, n, j, i), n - 1))
}

/// The checked matrix of cofactors of a square matrix.
pub trait Cofactor {
    type Output;

    /// What the cofactor computation asks of the value: validity, and
    /// room in the promoted kind for every minor determinant.
    spec fn cof_req(&self) -> bool;

    /// Everything the cofactor computation promises of its result.
    spec fn cof_post(&self, r: Self::Output) -> bool;

    /// Computes the matrix of cofactors: entry `(j, i)` is the signed
    /// determinant of the minor without row `j` and column `i`. Any
    /// single minor-determinant failure aborts the whole computation with
    /// that failure.
    fn cofactor(&self) -> (r: Self::Output)
        requires
            self.cof_req(),
        ensures
            self.cof_post(r),
    ;
}

impl<T: WideScalar> Cofactor for Matrix<T> {
    type Output = SlalErr<MatrixR>;

    /// A valid matrix whose minor determinants, if it is square and
    /// nonempty, stay inside the promoted kind.
    open spec fn cof_req(&self) -> bool {
        &&& self.wf()
        &&& (self.is_square() && self.width >= 2) ==> cof_fits(self@, self.width as int)
    }

    /// Non-square and empty input is rejected, in that order; otherwise
    /// the result exists exactly when every minor determinant does, and
    /// holds the signed minor determinants.
    open spec fn cof_post(&self, r: SlalErr<MatrixR>) -> bool {
        let g = self@;
        let n = self.width as int;
        &&& !self.is_square() ==> r == SlalErr::<MatrixR>::Err(SlalError::NotSquareMatrix)
        &&& self.is_square() && n == 0 ==> r == SlalErr::<MatrixR>::Err(SlalError::EmptyMatrix)
        &&& self.is_square() && n >= 1 ==> {
            &&& r is Ok <==> cof_ok(g, n)
            &&& r matches Ok(c) ==> c.wf() && c.width == self.width && c.height == self.height && (
            forall|j: int, i: int|
                0 <= j < n && 0 <= i < n ==> c@[j][i] == #[trigger] cof_entry(g, n, j, i))
            &&& r is Err ==> r == SlalErr::<MatrixR>::Err(SlalError::TriangularFormUnavailable)
        }
    }

    fn cofactor(&self) -> (r: SlalErr<MatrixR>) {
        if !self.is_sq() {
            return Err(SlalError::NotSquareMatrix);
        }
        if self.is_empty() {
            proof {
                if self.width != 0 {
                    crate::rational::lemma_nonzero_mul(self.width as int, self.height as int);
                }
            }
            return Err(SlalError::EmptyMatrix);
        }
        let n = self.size().0;
        let ghost g = self@;
        proof {
            if self.width == 0 {
                assert(self.width * self.height == 0) by (nonlinear_arith)
                    requires
                        self.width == 0,
                ;
            }
        }
        if n == 1 {
            let mut m: Vec<Rational> = Vec::new();
            m.push(Rational::from_int(1));
            let ghost mv = m@;
            let res = MatrixR { m, width: 1, height: 1 };
            proof {
                assert(res.m@ == mv);
                assert(res.m@.len() == 1);
                assert(res.m@[0].wf());
                assert(res.m@.len() == res.width * res.height) by (nonlinear_arith)
                    requires
                        res.m@.len() == 1,
                        res.width == 1,
                        res.height == 1,
                ;
                assert(res.wf());
                assert(res@[0][0] == rat_int(1));
                assert(res@[0][0] == cof_entry(g, 1, 0, 0));
                assert forall|j2: int, i2: int|
                    0 <= j2 < 1 && 0 <= i2 < 1 implies res@[j2][i2] == #[trigger] cof_entry(
                    g,
                    1,
                    j2,
                    i2,
                ) by {
                    assert(j2 == 0 && i2 == 0);
                }
                assert forall|j2: int, i2: int|
                    0 <= j2 < 1 && 0 <= i2 < 1 implies det_spec_ok(
                    #[trigger] minor_grid(g, 1, j2, i2),
                    0,
                ) by {
                    assert(crate::structure::upper_tri_grid(minor_grid(g, 1, j2, i2)));
                }
                assert(cof_ok(g, 1));
            }
            return Ok(res);
        }
        let mut m: Vec<Rational> = Vec::new();
        let mut j: usize = 0;
        while j < n
            invariant
                0 <= j <= n,
                2 <= n == self.width == self.height,
                self.wf(),
                g == self@,
                cof_fits(g, n as int),
                m@.len() == j * n,
                forall|k: int| 0 <= k < m@.len() ==> (#[trigger] m@[k]).wf(),
                forall|j2: int, i2: int|
                    0 <= j2 < j && 0 <= i2 < n ==> m@[j2 * n + i2]@ == #[trigger] cof_entry(
                        g,
                        n as int,
                        j2,
                        i2,
                    ),
                forall|j2: int, i2: int|
                    0 <= j2 < j && 0 <= i2 < n ==> det_spec_ok(
                        #[trigger] minor_grid(g, n as int, j2, i2),
                        n - 1,
                    ),
            decreases n - j,
        {
            let mut i: usize = 0;
            while i < n
                invariant
                    0 <= i <= n,
                    0 <= j < n,
                    2 <= n == self.width == self.height,
                    self.wf(),
                    g == self@,
                    cof_fits(g, n as int),
                    m@.len() == j * n + i,
                    forall|k: int| 0 <= k < m@.len() ==> (#[trigger] m@[k]).wf(),
                    forall|j2: int, i2: int|
                        0 <= j2 < j && 0 <= i2 < n ==> m@[j2 * n + i2]@ == #[trigger] cof_entry(
                            g,
                            n as int,
                            j2,
                            i2,
                        ),
                    forall|i2: int|
                        0 <= i2 < i ==> m@[j * n + i2]@ == #[trigger] cof_entry(
                            g,
                            n as int,
                            j as int,
                            i2,
                        ),
                    forall|j2: int, i2: int|
                        0 <= j2 < j && 0 <= i2 < n ==> det_spec_ok(
                            #[trigger] minor_grid(g, n as int, j2, i2),
                            n - 1,
                        ),
                    forall|i2: int|
                        0 <= i2 < i ==> det_spec_ok(
                            #[trigger] minor_grid(g, n as int, j as int, i2),
                            n - 1,
                        ),
                decreases n - i,
            {
                let mi = minor(self, j, i);
                proof {
                    assert(det_fits(minor_grid(g, n as int, j as int, i as int), n - 1));
                    assert(mi@ == minor_grid(g, n as int, j as int, i as int));
                    assert(mi.width * mi.height != 0) by (nonlinear_arith)
                        requires
                            mi.width == n - 1,
                            mi.height == n - 1,
                            n >= 2,
                    ;
                }
                let d = match mi.det() {
                    Ok(d) => d,
                    Err(_) => {
                        proof {
                            assert(!det_spec_ok(minor_grid(g, n as int, j as int, i as int), n - 1));
                            assert(!cof_ok(g, n as int));
                        }
                        return Err(SlalError::TriangularFormUnavailable);
                    },
                };
                let entry = if j % 2 == i % 2 {
                    d
                } else {
                    proof {
                        assert(rat_neg_ok(det_spec_val(minor_grid(g, n as int, j as int, i as int), n - 1)));
                    }
                    d.neg()
                };
                m.push(entry);
                i = i + 1;
                proof {
                    assert forall|j2: int, i2: int|
                        0 <= j2 < j && 0 <= i2 < n implies m@[j2 * n + i2]@ == #[trigger] cof_entry(
                        g,
                        n as int,
                        j2,
                        i2,
                    ) by {
                        lemma_flat_index(j2, i2, n as int, j as int);
                    }
                }
            }
            j = j + 1;
            proof {
                assert(m@.len() == (j - 1) * n + n == j * n) by (nonlinear_arith)
                    requires
                        m@.len() == (j - 1) * n + n,
                ;
                assert forall|j2: int, i2: int|
                    0 <= j2 < j && 0 <= i2 < n implies m@[j2 * n + i2]@ == #[trigger] cof_entry(
                    g,
                    n as int,
                    j2,
                    i2,
                ) by {
                    lemma_flat_index(j2, i2, n as int, j as int);
                }
            }
        }
        let res = MatrixR { m, width: n, height: n };
        proof {
            assert(res.wf()) by (nonlinear_arith)
                requires
                    res.m@.len() == n * n,
                    res.width == n,
                    res.height == n,
                    forall|k: int| 0 <= k < res.m@.len() ==> (#[trigger] res.m@[k]).wf(),
            ;
            assert forall|j2: int, i2: int|
                0 <= j2 < n && 0 <= i2 < n implies res@[j2][i2] == #[trigger] cof_entry(
                g,
                n as int,
                j2,
                i2,
            ) by {
                lemma_flat_index(j2, i2, n as int, n as int);
            }
        }
        Ok(res)
    }
}

/// The checked inverse of a square matrix, by the adjugate method.
pub trait Inverse: Cofactor {
    /// What the inverse asks of the value: validity, and room in the
    /// promoted kind for the determinant, the cofactors, and the final
    /// division.
    spec fn inv_req(&self) -> bool;

    /// Everything the inverse promises of its result.
    spec fn inv_post(&self, r: Self::Output) -> bool;

    /// Computes the inverse as the transposed cofactor matrix divided by
    /// the determinant. A zero determinant is rejected; determinant and
    /// cofactor failures propagate unchanged.
    fn inverse(&self) -> (r: Self::Output)
        requires
            self.inv_req(),
        ensures
            self.inv_post(r),
    ;
}

impl<T: WideScalar> Inverse for Matrix<T> {
    /// A valid matrix whose determinant, cofactors and adjugate division,
    /// if it is square and nonempty, stay inside the promoted kind.
    open spec fn inv_req(&self) -> bool {
        let g = self@;
        let n = self.width as int;
        &&& self.wf()
        &&& (self.is_square() && n >= 1) ==> {
            &&& det_fits(g, n)
            &&& cof_fits(g, n)
            &&& (det_spec_ok(g, n) && !rat_is_zero(det_spec_val(g, n)) && cof_ok(g, n))
                ==> forall|j: int, i: int|
                0 <= j < n && 0 <= i < n ==> rat_div_ok(
                    #[trigger] cof_entry(g, n, j, i),
                    det_spec_val(g, n),
                )
        }
    }

    /// Non-square and empty input is rejected, in that order; a failed
    /// determinant propagates; a zero determinant is rejected; a failed
    /// cofactor propagates; otherwise entry `(j, i)` of the result is the
    /// cofactor at `(i, j)` divided by the determinant.
    open spec fn inv_post(&self, r: SlalErr<MatrixR>) -> bool {
        let g = self@;
        let n = self.width as int;
        &&& !self.is_square() ==> r == SlalErr::<MatrixR>::Err(SlalError::NotSquareMatrix)
        &&& self.is_square() && n == 0 ==> r == SlalErr::<MatrixR>::Err(SlalError::EmptyMatrix)
        &&& self.is_square() && n >= 1 ==> {
            &&& !det_spec_ok(g, n) ==> r == SlalErr::<MatrixR>::Err(
                SlalError::TriangularFormUnavailable,
            )
            &&& det_spec_ok(g, n) && rat_is_zero(det_spec_val(g, n)) ==> r == SlalErr::<
                MatrixR,
            >::Err(SlalError::DeterminantZero)
            &&& det_spec_ok(g, n) && !rat_is_zero(det_spec_val(g, n)) && !cof_ok(g, n) ==> r
                == SlalErr::<MatrixR>::Err(SlalError::TriangularFormUnavailable)
            &&& det_spec_ok(g, n) && !rat_is_zero(det_spec_val(g, n)) && cof_ok(g, n) ==> (r
                matches Ok(m) && m.wf() && m.width == self.width && m.height == self.height && (
            forall|j: int, i: int|
                0 <= j < n && 0 <= i < n ==> m@[j][i] == rat_div(
                    #[trigger] cof_entry(g, n, i, j),
                    det_spec_val(g, n),
                )))
        }
    }

    fn inverse(&self) -> (r: SlalErr<MatrixR>) {
        if !self.is_sq() {
            return Err(SlalError::NotSquareMatrix);
        }
        if self.is_empty() {
            proof {
                if self.width != 0 {
                    crate::rational::lemma_nonzero_mul(self.width as int, self.height as int);
                }
            }
            return Err(SlalError::EmptyMatrix);
        }
        let n = self.size().0;
        let ghost g = self@;
        let det = match self.det() {
            Ok(d) => d,
            Err(e) => {
                return Err(e);
            },
        };
        if det.is_zero() {
            return Err(SlalError::DeterminantZero);
        }
        let mut cof = match self.cofactor() {
            Ok(c) => c,
            Err(e) => {
                return Err(e);
            },
        };
        let ghost cv = cof@;
        cof.t();
        proof {
            assert(det_spec_ok(g, n as int));
            assert(!rat_is_zero(det_spec_val(g, n as int)));
            assert(cof_ok(g, n as int));
            assert forall|j2: int, i2: int|
                0 <= j2 < n && 0 <= i2 < n implies cof@[j2][i2] == #[trigger] cof_entry(
                g,
                n as int,
                i2,
                j2,
            ) by {
                assert(cof@[j2][i2] == cv[i2][j2]);
            }
        }
        let mut m: Vec<Rational> = Vec::new();
        let mut j: usize = 0;
        while j < n
            invariant
                0 <= j <= n,
                1 <= n == self.width == self.height,
                self.wf(),
                g == self@,
                cof.wf(),
                cof.width == n,
                cof.height == n,
                forall|j2: int, i2: int|
                    0 <= j2 < n && 0 <= i2 < n ==> cof@[j2][i2] == #[trigger] cof_entry(
                        g,
                        n as int,
                        i2,
                        j2,
                    ),
                det.wf(),
                det@ == det_spec_val(g, n as int),
                !rat_is_zero(det@),
                forall|j2: int, i2: int|
                    0 <= j2 < n && 0 <= i2 < n ==> rat_div_ok(
                        #[trigger] cof_entry(g, n as int, j2, i2),
                        det_spec_val(g, n as int),
                    ),
                m@.len() == j * n,
                forall|k: int| 0 <= k < m@.len() ==> (#[trigger] m@[k]).wf(),
                forall|j2: int, i2: int|
                    0 <= j2 < j && 0 <= i2 < n ==> m@[j2 * n + i2]@ == rat_div(
                        #[trigger] cof_entry(g, n as int, i2, j2),
                        det_spec_val(g, n as int),
                    ),
            decreases n - j,
        {
            let mut i: usize = 0;
            while i < n
                invariant
                    0 <= i <= n,
                    0 <= j < n,
                    1 <= n == self.width == self.height,
                    self.wf(),
                    g == self@,
                    cof.wf(),
                    cof.width == n,
                    cof.height == n,
                    forall|j2: int, i2: int|
                        0 <= j2 < n && 0 <= i2 < n ==> cof@[j2][i2] == #[trigger] cof_entry(
                            g,
                            n as int,
                            i2,
                            j2,
                        ),
                    det.wf(),
                    det@ == det_spec_val(g, n as int),
                    !rat_is_zero(det@),
                    forall|j2: int, i2: int|
                        0 <= j2 < n && 0 <= i2 < n ==> rat_div_ok(
                            #[trigger] cof_entry(g, n as int, j2, i2),
                            det_spec_val(g, n as int),
                        ),
                    m@.len() == j * n + i,
                    forall|k: int| 0 <= k < m@.len() ==> (#[trigger] m@[k]).wf(),
                    forall|j2: int, i2: int|
                        0 <= j2 < j && 0 <= i2 < n ==> m@[j2 * n + i2]@ == rat_div(
                            #[trigger] cof_entry(g, n as int, i2, j2),
                            det_spec_val(g, n as int),
                        ),
                    forall|i2: int|
                        0 <= i2 < i ==> m@[j * n + i2]@ == rat_div(
                            #[trigger] cof_entry(g, n as int, i2, j as int),
                            det_spec_val(g, n as int),
                        ),
                decreases n - i,
            {
                let c = cof.get(j, i);
                proof {
                    assert(c@ == cof_entry(g, n as int, i as int, j as int));
                    assert(rat_div_ok(cof_entry(g, n as int, i as int, j as int), det_spec_val(g, n as int)));
                }
                m.push(c.div(&det));
                i = i + 1;
                proof {
                    assert forall|j2: int, i2: int|
                        0 <= j2 < j && 0 <= i2 < n implies m@[j2 * n + i2]@ == rat_div(
                    #[trigger] cof_entry(g, n as int, i2, j2),
                    det_spec_val(g, n as int),
                    ) by {
                        lemma_flat_index(j2, i2, n as int, j as int);
                    }
                }
            }
            j = j + 1;
            proof {
                assert(m@.len() == (j - 1) * n + n == j * n) by (nonlinear_arith)
                    requires
                        m@.len() == (j - 1) * n + n,
                ;
            }
        }
        let res = MatrixR { m, width: n, height: n };
        proof {
            assert(res.wf()) by (nonlinear_arith)
                requires
                    res.m@.len() == n * n,
                    res.width == n,
                    res.height == n,
                    forall|k: int| 0 <= k < res.m@.len() ==> (#[trigger] res.m@[k]).wf(),
            ;
            assert forall|j2: int, i2: int|
                0 <= j2 < n && 0 <= i2 < n implies res@[j2][i2] == rat_div(
                #[trigger] cof_entry(g, n as int, i2, j2),
                det_spec_val(g, n as int),
            ) by {
                lemma_flat_index(j2, i2, n as int, n as int);
            }
        }
        Ok(res)
    }
}

} // verus!
