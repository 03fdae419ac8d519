use vstd::prelude::*;

use crate::matrix::Matrix;
use crate::matrix::lemma_flat_index;
use crate::scalar::Scalar;

verus! {

/// The square grid holding `d` on its diagonal and zero elsewhere.
pub open spec fn diag_grid(d: Seq<int>) -> Seq<Seq<int>> {
    Seq::new(
        d.len(),
        |j: int|
            Seq::new(
                d.len(),
                |i: int|
                    if i == j {
                        d[i]
                    } else {
                        0
                    },
            ),
    )
}

/// Every entry below the diagonal of `g` is zero.
pub open spec fn upper_tri_grid(g: Seq<Seq<int>>) -> bool {
    forall|j: int, i: int| 0 <= j < g.len() && 0 <= i < j ==> #[trigger] g[j][i] == 0
}

/// Every entry above the diagonal of `g` is zero; `w` is the row length.
pub open spec fn lower_tri_grid(g: Seq<Seq<int>>, w: int) -> bool {
    forall|j: int, i: int| 0 <= j < g.len() && j < i < w ==> #[trigger] g[j][i] == 0
}

/// Every entry off the diagonal of `g` is zero; `w` is the row length.
pub open spec fn diag_only_grid(g: Seq<Seq<int>>, w: int) -> bool {
    forall|j: int, i: int| 0 <= j < g.len() && 0 <= i < w && i != j ==> #[trigger] g[j][i] == 0
}

/// The grid `g` without row `row` and column `column`; `w` is the row
/// length of `g`.
pub open spec fn minor_grid(g: Seq<Seq<int>>, w: int, row: int, column: int) -> Seq<Seq<int>> {
    Seq::new(
        (g.len() - 1) as nat,
        |j: int|
            Seq::new(
                (w - 1) as nat,
                |i: int|
                    g[if j < row {
                        j
                    } else {
                        j + 1
                    }][
                    if i < column {
                        i
                    } else {
                        i + 1
                    }],
            ),
    )
}

/// Construction of diagonal matrices, and the check that a matrix is
/// diagonal.
pub trait DiagonalMatrix<T: Scalar>: Sized {
    /// What the diagonal check reports: a square grid with zero everywhere
    /// off the diagonal.
    spec fn is_diagonal_spec(&self) -> bool;

    /// The validity the check asks of the value.
    spec fn diag_req(&self) -> bool;

    /// Builds the square matrix holding `diagonal` on its diagonal and zero
    /// elsewhere.
    fn diagonal(diagonal: &[T]) -> (r: Matrix<T>)
        ensures
            r.wf(),
            r.width == diagonal@.len(),
            r.height == diagonal@.len(),
            r@ == diag_grid(diagonal@.map(|i: int, x: T| x.sval())),
    ;

    /// Whether the matrix is square with zero everywhere off the diagonal.
    fn is_diagonal(&self) -> (r: bool)
        requires
            self.diag_req(),
        ensures
            r == self.is_diagonal_spec(),
    ;
}

impl<T: Scalar> DiagonalMatrix<T> for Matrix<T> {
    /// A diagonal matrix is square and zero off the diagonal.
    open spec fn is_diagonal_spec(&self) -> bool {
        self.is_square() && diag_only_grid(self@, self.width as int)
    }

    /// The check walks the storage, so the shape must match it.
    open spec fn diag_req(&self) -> bool {
        self.wf()
    }

    fn diagonal(diagonal: &[T]) -> (r: Matrix<T>) {
        let n = diagonal.len();
        let ghost d = diagonal@.map(|i: int, x: T| x.sval());
        let mut m: Vec<T> = Vec::new();
        let mut j: usize = 0;
        while j < n
            invariant
                0 <= j <= n,
                n == diagonal@.len(),
                d == diagonal@.map(|i: int, x: T| x.sval()),
                m@.len() == j * n,
                forall|j2: int, i2: int|
                    0 <= j2 < j && 0 <= i2 < n ==> m@[j2 * n + i2].sval() == (
                    #[trigger] diag_grid(d)[j2][i2]),
            decreases n - j,
        {
            let mut i: usize = 0;
            while i < n
                invariant
                    0 <= i <= n,
                    0 <= j < n,
                    n == diagonal@.len(),
                    d == diagonal@.map(|i: int, x: T| x.sval()),
                    m@.len() == j * n + i,
                    forall|j2: int, i2: int|
                        0 <= j2 < j && 0 <= i2 < n ==> m@[j2 * n + i2].sval() == (
                        #[trigger] diag_grid(d)[j2][i2]),
                    forall|i2: int|
                        0 <= i2 < i ==> m@[j * n + i2].sval() == (#[trigger] diag_grid(d)[j as int][i2]),
                decreases n - i,
            {
                if i == j {
                    m.push(*vstd::slice::slice_index_get(diagonal, i));
                } else {
                    m.push(T::zero());
                }
                i = i + 1;
                proof {
                    assert forall|j2: int, i2: int|
                        0 <= j2 < j && 0 <= i2 < n implies m@[j2 * n + i2].sval() == (
                    #[trigger] diag_grid(d)[j2][i2]) by {
                        lemma_flat_index(j2, i2, n as int, j as int);
                    }
                }
            }
            j = j + 1;
            proof {
                assert(m@.len() == (j - 1) * n + n == j * n) by (nonlinear_arith)
                    requires
                        m@.len() == (j - 1) * n + n,
                ;
            }
        }
        let res = Matrix { m, width: n, height: n };
        proof {
            assert(res.wf()) by (nonlinear_arith)
                requires
                    res.m@.len() == n * n,
                    res.width == n,
                    res.height == n,
            ;
            assert forall|j2: int|
                0 <= j2 < n implies res@[j2] == diag_grid(d)[j2] by {
                assert forall|i2: int|
                    0 <= i2 < n implies res@[j2][i2] == diag_grid(d)[j2][i2] by {
                    lemma_flat_index(j2, i2, n as int, n as int);
                }
                assert(res@[j2] =~= diag_grid(d)[j2]);
            }
            assert(res@ =~= diag_grid(d));
        }
        res
    }

    fn is_diagonal(&self) -> (r: bool) {
        if !self.is_sq() {
            return false;
        }
        let n = self.size().0;
        let mut j: usize = 0;
        while j < n
            invariant
                0 <= j <= n,
                n == self.width == self.height,
                self.wf(),
                forall|j2: int, i2: int|
                    0 <= j2 < j && 0 <= i2 < n && i2 != j2 ==> #[trigger] self@[j2][i2] == 0,
            decreases n - j,
        {
            let mut i: usize = 0;
            while i < n
                invariant
                    0 <= i <= n,
                    0 <= j < n,
                    n == self.width == self.height,
                    self.wf(),
                    forall|j2: int, i2: int|
                        0 <= j2 < j && 0 <= i2 < n && i2 != j2 ==> #[trigger] self@[j2][i2] == 0,
                    forall|i2: int|
                        0 <= i2 < i && i2 != j ==> #[trigger] self@[j as int][i2] == 0,
                decreases n - i,
            {
                if i != j && !self.get(j, i).is_zero() {
                    return false;
                }
                i = i + 1;
            }
            j = j + 1;
        }
        true
    }
}

impl<T: Scalar> Matrix<T> {
    /// Whether width and height agree.
    pub fn is_sq(&self) -> (r: bool)
        ensures
            r == self.is_square(),
    {
        self.width == self.height
    }

}

/// The matrix without row `row` and column `column`, as used by cofactor
/// expansion.
pub fn minor<T: Scalar>(mtx: &Matrix<T>, row: usize, column: usize) -> (r: Matrix<T>)
    requires
        mtx.wf(),
        row < mtx.height,
        column < mtx.width,
    ensures
        r.wf(),
        r.width == mtx.width - 1,
        r.height == mtx.height - 1,
        r@ == minor_grid(mtx@, mtx.width as int, row as int, column as int),
{
    let w = mtx.size().0;
    let h = mtx.size().1;
    let ghost mg = minor_grid(mtx@, w as int, row as int, column as int);
    let mut m: Vec<T> = Vec::new();
    let mut j: usize = 0;
    while j < h - 1
        invariant
            0 <= j <= h - 1,
            w == mtx.width,
            h == mtx.height,
            row < h,
            column < w,
            mtx.wf(),
            mg == minor_grid(mtx@, w as int, row as int, column as int),
            m@.len() == j * (w - 1),
            forall|j2: int, i2: int|
                0 <= j2 < j && 0 <= i2 < w - 1 ==> m@[j2 * (w - 1) + i2].sval() == (
                #[trigger] mg[j2][i2]),
        decreases h - 1 - j,
    {
        let sj = if j < row {
            j
        } else {
            j + 1
        };
        let mut i: usize = 0;
        while i < w - 1
            invariant
                0 <= i <= w - 1,
                0 <= j < h - 1,
                sj == (if j < row {
                    j as int
                } else {
                    j + 1
                }),
                w == mtx.width,
                h == mtx.height,
                row < h,
                column < w,
                mtx.wf(),
                mg == minor_grid(mtx@, w as int, row as int, column as int),
                m@.len() == j * (w - 1) + i,
                forall|j2: int, i2: int|
                    0 <= j2 < j && 0 <= i2 < w - 1 ==> m@[j2 * (w - 1) + i2].sval() == (
                    #[trigger] mg[j2][i2]),
                forall|i2: int|
                    0 <= i2 < i ==> m@[j * (w - 1) + i2].sval() == (#[trigger] mg[j as int][i2]),
            decreases w - 1 - i,
        {
            let si = if i < column {
                i
            } else {
                i + 1
            };
            m.push(mtx.get(sj, si));
            i = i + 1;
            proof {
                assert forall|j2: int, i2: int|
                    0 <= j2 < j && 0 <= i2 < w - 1 implies m@[j2 * (w - 1) + i2].sval() == (
                #[trigger] mg[j2][i2]) by {
                    lemma_flat_index(j2, i2, w - 1, j as int);
                }
            }
        }
        j = j + 1;
        proof {
            assert(m@.len() == (j - 1) * (w - 1) + (w - 1) == j * (w - 1)) by (nonlinear_arith)
                requires
                    m@.len() == (j - 1) * (w - 1) + (w - 1),
            ;
        }
    }
    let res = Matrix { m, width: w - 1, height: h - 1 };
    proof {
        assert(res.wf()) by (nonlinear_arith)
            requires
                res.m@.len() == (h - 1) * (w - 1),
                res.width == w - 1,
                res.height == h - 1,
        ;
        assert forall|j2: int|
            0 <= j2 < h - 1 implies res@[j2] == mg[j2] by {
            assert forall|i2: int|
                0 <= i2 < w - 1 implies res@[j2][i2] == mg[j2][i2] by {
                lemma_flat_index(j2, i2, w - 1, h - 1);
            }
            assert(res@[j2] =~= mg[j2]);
        }
        assert(res@ =~= mg);
    }
    res
}

} // verus!
