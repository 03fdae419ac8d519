use vstd::prelude::*;

use crate::error::SlalError;
use crate::error::SlalErr;
use crate::matrix::Matrix;
use crate::rational::Rat;
use crate::rational::Rational;
use crate::rational::i128_ok;
use crate::rational::rat_int;
use crate::rational::rat_mul;
use crate::rational::rat_mul_ok;
use crate::scalar::WideScalar;
use crate::structure::lower_tri_grid;
use crate::structure::upper_tri_grid;
use crate::triangular::TriangularMatrix;
use crate::triangular::lu;
use crate::triangular::lu_fits;
use crate::triangular::pivots_ok;
use crate::triangular::u_entry;

verus! {

/// The product of the first `k` diagonal entries of `g`.
pub open spec fn diag_prod(g: Seq<Seq<int>>, k: int) -> int
    decreases k,
{
    if k <= 0 {
        1
    } else {
        diag_prod(g, k - 1) * g[k - 1][k - 1]
    }
}

/// Room in the promoted kind for every partial diagonal product.
pub open spec fn diag_prod_ok(g: Seq<Seq<int>>, n: int) -> bool {
    forall|k: int| 0 <= k <= n ==> i128_ok(#[trigger] diag_prod(g, k))
}

/// The closed-form determinant of a two-by-two grid.
pub open spec fn det2_val(g: Seq<Seq<int>>) -> int {
    g[0][0] * g[1][1] - g[1][0] * g[0][1]
}

/// Room in the promoted kind for the two-by-two closed form.
pub open spec fn det2_ok(g: Seq<Seq<int>>) -> bool {
    i128_ok(g[0][0] * g[1][1]) && i128_ok(g[1][0] * g[0][1]) && i128_ok(det2_val(g))
}

/// The closed-form determinant of a three-by-three grid, expanded along
/// the first column.
pub open spec fn det3_val(g: Seq<Seq<int>>) -> int {
    g[0][0] * (g[1][1] * g[2][2] - g[2][1] * g[1][2]) - g[1][0] * (g[0][1] * g[2][2] - g[2][1]
        * g[0][2]) + g[2][0] * (g[0][1] * g[1][2] - g[1][1] * g[0][2])
}

/// Room in the promoted kind for every intermediate of the three-by-three
/// closed form.
pub open spec fn det3_ok(g: Seq<Seq<int>>) -> bool {
    &&& i128_ok(g[1][1] * g[2][2])
    &&& i128_ok(g[2][1] * g[1][2])
    &&& i128_ok(g[1][1] * g[2][2] - g[2][1] * g[1][2])
    &&& i128_ok(g[0][0] * (g[1][1] * g[2][2] - g[2][1] * g[1][2]))
    &&& i128_ok(g[0][1] * g[2][2])
    &&& i128_ok(g[2][1] * g[0][2])
    &&& i128_ok(g[0][1] * g[2][2] - g[2][1] * g[0][2])
    &&& i128_ok(g[1][0] * (g[0][1] * g[2][2] - g[2][1] * g[0][2]))
    &&& i128_ok(g[0][1] * g[1][2])
    &&& i128_ok(g[1][1] * g[0][2])
    &&& i128_ok(g[0][1] * g[1][2] - g[1][1] * g[0][2])
    &&& i128_ok(g[2][0] * (g[0][1] * g[1][2] - g[1][1] * g[0][2]))
    &&& i128_ok(
        g[0][0] * (g[1][1] * g[2][2] - g[2][1] * g[1][2]) - g[1][0] * (g[0][1] * g[2][2] - g[2][1]
            * g[0][2]),
    )
    &&& i128_ok(det3_val(g))
}

/// The product of the first `k` diagonal entries of the upper Doolittle
/// factor of `g`, folded as the code folds it.
pub open spec fn u_diag_prod(g: Seq<Seq<int>>, k: int) -> Rat
    decreases k,
{
    if k <= 0 {
        rat_int(1)
    } else {
        rat_mul(u_diag_prod(g, k - 1), lu(g, k - 1, k - 1))
    }
}

/// Room in the promoted kind for every partial product of the upper
/// factor's diagonal.
pub open spec fn u_diag_prod_ok(g: Seq<Seq<int>>, n: int) -> bool {
    forall|k: int| 0 <= k < n ==> rat_mul_ok(#[trigger] u_diag_prod(g, k), lu(g, k, k))
}

/// Whether the square grid `g` of size `n` is upper- or lower-triangular
/// in shape.
pub open spec fn tri_shaped(g: Seq<Seq<int>>, n: int) -> bool {
    upper_tri_grid(g) || lower_tri_grid(g, n)
}

/// Whether the determinant of the square, nonempty grid `g` of size `n`
/// is defined: always, except where the general case hits a zero pivot.
pub open spec fn det_spec_ok(g: Seq<Seq<int>>, n: int) -> bool {
    tri_shaped(g, n) || n <= 3 || pivots_ok(g, n)
}

/// The determinant of the square, nonempty grid `g` of size `n`, branch
/// by branch: the diagonal product for triangular shapes, the closed
/// forms up to three-by-three, and the diagonal product of the Doolittle
/// upper factor beyond that.
pub open spec fn det_spec_val(g: Seq<Seq<int>>, n: int) -> Rat {
    if tri_shaped(g, n) {
        rat_int(diag_prod(g, n))
    } else if n <= 1 {
        rat_int(g[0][0])
    } else if n == 2 {
        rat_int(det2_val(g))
    } else if n == 3 {
        rat_int(det3_val(g))
    } else {
        u_diag_prod(g, n)
    }
}

/// Room in the promoted kind for whichever branch the determinant of the
/// square grid `g` of size `n` takes.
pub open spec fn det_fits(g: Seq<Seq<int>>, n: int) -> bool {
    if tri_shaped(g, n) {
        diag_prod_ok(g, n)
    } else if n <= 1 {
        true
    } else if n == 2 {
        det2_ok(g)
    } else if n == 3 {
        det3_ok(g)
    } else {
        lu_fits(g, n) && (pivots_ok(g, n) ==> u_diag_prod_ok(g, n))
    }
}

/// The checked determinant of a square matrix.
pub trait Determinant: TriangularMatrix {
    /// What the determinant asks of the value: validity, and room in the
    /// promoted kind for the branch it takes.
    spec fn det_req(&self) -> bool;

    /// Everything the determinant promises of its result.
    spec fn det_post(&self, r: SlalErr<Rational>) -> bool;

    /// Computes the determinant: the exact diagonal product for
    /// triangular shapes, closed forms up to three-by-three, and the
    /// diagonal product of the Doolittle upper factor beyond that.
    fn det(&self) -> (r: SlalErr<Rational>)
        requires
            self.det_req(),
        ensures
            self.det_post(r),
    ;
}

impl<T: WideScalar> Determinant for Matrix<T> {
    /// A valid matrix whose determinant arithmetic, if it is square and
    /// nonempty, stays inside the promoted kind.
    open spec fn det_req(&self) -> bool {
        &&& self.wf()
        &&& (self.width * self.height != 0 && self.is_square()) ==> det_fits(
            self@,
            self.width as int,
        )
    }

    /// Empty and non-square input is rejected, in that order. A
    /// triangular shape yields the exact product of its diagonal; sizes
    /// one to three their closed forms; larger sizes the diagonal product
    /// of the Doolittle upper factor, which exists exactly when every
    /// pivot is nonzero.
    open spec fn det_post(&self, r: SlalErr<Rational>) -> bool {
        let g = self@;
        let n = self.width as int;
        &&& self.width * self.height == 0 ==> r == SlalErr::<Rational>::Err(SlalError::EmptyMatrix)
        &&& self.width * self.height != 0 && !self.is_square() ==> r == SlalErr::<Rational>::Err(
            SlalError::NotSquareMatrix,
        )
        &&& self.width * self.height != 0 && self.is_square() ==> {
            &&& r is Ok <==> det_spec_ok(g, n)
            &&& r matches Ok(v) ==> v.wf() && v@ == det_spec_val(g, n)
            &&& r is Err ==> r == SlalErr::<Rational>::Err(SlalError::TriangularFormUnavailable)
        }
    }

    fn det(&self) -> (r: SlalErr<Rational>) {
        if self.is_empty() {
            return Err(SlalError::EmptyMatrix);
        }
        if !self.is_sq() {
            return Err(SlalError::NotSquareMatrix);
        }
        let n = self.size().0;
        let ghost g = self@;
        let wide = self.promote();
        if self.is_upper_triangular() || self.is_lower_triangular() {
            let mut acc: i128 = 1;
            let mut k: usize = 0;
            while k < n
                invariant
                    0 <= k <= n,
                    n == self.width == self.height,
                    g == self@,
                    wide.wf(),
                    wide@ == g,
                    wide.width == n,
                    wide.height == n,
                    diag_prod_ok(g, n as int),
                    acc as int == diag_prod(g, k as int),
                decreases n - k,
            {
                proof {
                    assert(i128_ok(diag_prod(g, k + 1)));
                }
                acc = acc * wide.get(k, k);
                k = k + 1;
            }
            return Ok(Rational::from_wide(acc));
        }
        if n == 1 {
            // a one-by-one matrix is triangular, so this arm is never
            // reached; the diagonal product above covers it
            return Ok(Rational::from_wide(wide.get(0, 0)));
        }
        if n == 2 {
            let p1 = wide.get(0, 0) * wide.get(1, 1);
            let p2 = wide.get(1, 0) * wide.get(0, 1);
            return Ok(Rational::from_wide(p1 - p2));
        }
        if n == 3 {
            let m1 = wide.get(0, 0) * (wide.get(1, 1) * wide.get(2, 2) - wide.get(2, 1) * wide.get(
                1,
                2,
            ));
            let m2 = wide.get(1, 0) * (wide.get(0, 1) * wide.get(2, 2) - wide.get(2, 1) * wide.get(
                0,
                2,
            ));
            let m3 = wide.get(2, 0) * (wide.get(0, 1) * wide.get(1, 2) - wide.get(1, 1) * wide.get(
                0,
                2,
            ));
            return Ok(Rational::from_wide(m1 - m2 + m3));
        }
        match crate::triangular::doolittle_upper(&wide) {
            Ok(u) => {
                let mut acc = Rational::from_int(1);
                let mut k: usize = 0;
                while k < n
                    invariant
                        0 <= k <= n,
                        n == self.width == self.height,
                        g == self@,
                        u.wf(),
                        u.width == n,
                        u.height == n,
                        pivots_ok(g, n as int),
                        u_diag_prod_ok(g, n as int),
                        forall|j2: int, i2: int|
                            0 <= j2 < n && 0 <= i2 < n ==> u@[j2][i2] == #[trigger] u_entry(
                                g,
                                j2,
                                i2,
                            ),
                        acc.wf(),
                        acc@ == u_diag_prod(g, k as int),
                    decreases n - k,
                {
                    proof {
                        assert(u@[k as int][k as int] == u_entry(g, k as int, k as int));
                        assert(u_entry(g, k as int, k as int) == lu(g, k as int, k as int));
                        assert(rat_mul_ok(u_diag_prod(g, k as int), lu(g, k as int, k as int)));
                    }
                    let e = u.get(k, k);
                    acc = acc.mul(&e);
                    k = k + 1;
                }
                Ok(acc)
            },
            Err(_) => Err(SlalError::TriangularFormUnavailable),
        }
    }
}

} // verus!
