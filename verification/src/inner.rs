use vstd::prelude::*;

use crate::error::SlalError;
use crate::error::SlalErr;
use crate::linear::Dot;
use crate::matrix::Matrix;
use crate::matrix::grid_transpose;
use crate::ops::col_dot_fits;
use crate::ops::col_dot_val;
use crate::rational::i128_ok;
use crate::scalar::WideScalar;

verus! {

/// The sum of the first `k` entries of a row.
pub open spec fn row_sum(row: Seq<int>, k: int) -> int
    decreases k,
{
    if k <= 0 {
        0
    } else {
        row_sum(row, k - 1) + row[k - 1]
    }
}

/// The sum of the first `k` full rows of a grid.
pub open spec fn grid_sum_rows(p: Seq<Seq<int>>, k: int) -> int
    decreases k,
{
    if k <= 0 {
        0
    } else {
        grid_sum_rows(p, k - 1) + row_sum(p[k - 1], p[k - 1].len() as int)
    }
}

/// The product of the transpose of `g` with `g` itself, whose entries
/// the inner product sums; `w` is the row length of `g`.
pub open spec fn inner_grid(g: Seq<Seq<int>>, w: int) -> Seq<Seq<int>> {
    Seq::new(w as nat, |j: int| Seq::new(w as nat, |i: int| col_dot_val(grid_transpose(g, w)[j], g, i)))
}

/// The inner product of `g` with itself: the sum of every entry of the
/// transpose-times-self product.
pub open spec fn inner_val(g: Seq<Seq<int>>, w: int) -> int {
    grid_sum_rows(inner_grid(g, w), w)
}

/// The running sum after `j` full rows and `k` entries of the next row
/// of the transpose-times-self product.
pub open spec fn inner_partial(g: Seq<Seq<int>>, w: int, j: int, k: int) -> int {
    grid_sum_rows(inner_grid(g, w), j) + row_sum(inner_grid(g, w)[j], k)
}

/// The checked inner product of a matrix with itself.
pub trait InnerProduct {
    type Output;

    /// What the inner product asks of the value: validity, and room in
    /// the promoted kind for the product and the sums.
    spec fn inner_req(&self) -> bool;

    /// Everything the inner product promises of its result.
    spec fn inner_post(&self, r: Self::Output) -> bool;

    /// Computes the inner product: the matrix is transposed, multiplied
    /// with itself, and the product's entries are summed.
    fn inner(&self) -> (r: Self::Output)
        requires
            self.inner_req(),
        ensures
            self.inner_post(r),
    ;
}

impl<T: WideScalar> InnerProduct for Matrix<T> {
    type Output = SlalErr<i128>;

    /// A valid matrix whose transpose-times-self product and entry sums
    /// stay inside the promoted kind.
    open spec fn inner_req(&self) -> bool {
        let g = self@;
        let w = self.width as int;
        &&& self.wf()
        &&& forall|j: int|
            0 <= j < w ==> col_dot_fits::<i128>(#[trigger] grid_transpose(g, w)[j], g, w)
        &&& forall|j: int, k: int|
            0 <= j < w && 0 <= k <= w ==> i128_ok(#[trigger] inner_partial(g, w, j, k))
    }

    /// The inner product is always defined, and is the sum of the
    /// entries of the transpose-times-self product.
    open spec fn inner_post(&self, r: SlalErr<i128>) -> bool {
        r matches Ok(s) && s as int == inner_val(self@, self.width as int)
    }

    fn inner(&self) -> (r: SlalErr<i128>) {
        let ghost g = self@;
        let w = self.size().0;
        let wide = self.promote();
        let mut wt = self.promote();
        wt.t();
        let p = match wt.dot(&wide) {
            Ok(p) => p,
            Err(_) => {
                proof {
                    assert(false);
                }
                return Err(SlalError::UnmatchingOperandLength);
            },
        };
        let ghost pg = inner_grid(g, w as int);
        proof {
            assert forall|j2: int, i2: int|
                0 <= j2 < w && 0 <= i2 < w implies p@[j2][i2] == pg[j2][i2] by {
                assert(p@[j2][i2] == col_dot_val(wt@[j2], wide@, i2));
            }
        }
        let mut acc: i128 = 0;
        let mut j: usize = 0;
        while j < w
            invariant
                0 <= j <= w,
                w == self.width,
                g == self@,
                pg == inner_grid(g, w as int),
                p.wf(),
                p.width == w,
                p.height == w,
                forall|j2: int, i2: int| 0 <= j2 < w && 0 <= i2 < w ==> p@[j2][i2] == pg[j2][i2],
                forall|j2: int, k2: int|
                    0 <= j2 < w && 0 <= k2 <= w ==> i128_ok(
                        #[trigger] inner_partial(g, w as int, j2, k2),
                    ),
                acc as int == grid_sum_rows(pg, j as int),
            decreases w - j,
        {
            let mut i: usize = 0;
            while i < w
                invariant
                    0 <= i <= w,
                    0 <= j < w,
                    w == self.width,
                    g == self@,
                    pg == inner_grid(g, w as int),
                    p.wf(),
                    p.width == w,
                    p.height == w,
                    forall|j2: int, i2: int|
                        0 <= j2 < w && 0 <= i2 < w ==> p@[j2][i2] == pg[j2][i2],
                    forall|j2: int, k2: int|
                        0 <= j2 < w && 0 <= k2 <= w ==> i128_ok(
                            #[trigger] inner_partial(g, w as int, j2, k2),
                        ),
                    acc as int == grid_sum_rows(pg, j as int) + row_sum(pg[j as int], i as int),
                decreases w - i,
            {
                proof {
                    assert(i128_ok(inner_partial(g, w as int, j as int, i + 1)));
                    assert(p@[j as int][i as int] == pg[j as int][i as int]);
                }
                acc = acc + p.get(j, i);
                i = i + 1;
            }
            j = j + 1;
            proof {
                assert(pg[j - 1].len() == w);
                assert(grid_sum_rows(pg, j as int) == grid_sum_rows(pg, j - 1) + row_sum(
                    pg[j - 1],
                    w as int,
                ));
            }
        }
        proof {
            assert(acc as int == inner_val(g, w as int));
        }
        Ok(acc)
    }
}

} // verus!
