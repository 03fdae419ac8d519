use vstd::prelude::*;

use crate::error::SlalError;
use crate::error::SlalErr;
use crate::scalar::Scalar;
use crate::scalar::WideScalar;

verus! {

/// A two-dimensional numeric grid stored row-major, with an explicit
/// width (row length) and height (number of rows).
#[derive(Debug, Clone, PartialEq)]
pub struct Matrix<T: Scalar> {
    pub m: Vec<T>,
    pub width: usize,
    pub height: usize,
}

/// The grid with rows and columns exchanged; `w` is the row length of `g`.
pub open spec fn grid_transpose(g: Seq<Seq<int>>, w: int) -> Seq<Seq<int>> {
    Seq::new(w as nat, |i: int| Seq::new(g.len(), |j: int| g[j][i]))
}

/// Every row of `g` has length `w`.
pub open spec fn grid_rect(g: Seq<Seq<int>>, w: int) -> bool {
    forall|j: int| 0 <= j < g.len() ==> (#[trigger] g[j]).len() == w
}

/// A flat row-major index stays inside the grid.
pub proof fn lemma_flat_index(j: int, i: int, w: int, h: int)
    requires
        0 <= j < h,
        0 <= i < w,
    ensures
        0 <= j * w + i < h * w,
{
    assert(j * w + i < h * w) by (nonlinear_arith)
        requires
            0 <= j < h,
            0 <= i < w,
    ;
    assert(0 <= j * w) by (nonlinear_arith)
        requires
            0 <= j,
            0 <= w,
    ;
}

impl<T: Scalar> View for Matrix<T> {
    type V = Seq<Seq<int>>;

    /// The mathematical contents: the sequence of rows of element values.
    open spec fn view(&self) -> Seq<Seq<int>> {
        Seq::new(
            self.height as nat,
            |j: int| Seq::new(self.width as nat, |i: int| self.m@[j * self.width + i].sval()),
        )
    }
}

impl<T: Scalar> Matrix<T> {
    /// The storage matches the shape descriptor.
    pub open spec fn wf(&self) -> bool {
        self.m@.len() == self.width * self.height
    }

    /// Width and height agree.
    pub open spec fn is_square(&self) -> bool {
        self.width == self.height
    }

    /// Builds a matrix from equal-length rows; rows of unmatching length are
    /// rejected.
    pub fn new(rows: &Vec<Vec<T>>) -> (r: SlalErr<Matrix<T>>)
        ensures
            r is Ok <==> (forall|j: int|
                0 <= j < rows@.len() ==> (#[trigger] rows@[j])@.len() == rows@[0]@.len()),
            r matches Ok(m) ==> m.wf() && m.height == rows@.len() && (m.width as int == (
            if rows@.len() > 0 {
                rows@[0]@.len() as int
            } else {
                0
            })) && m@ == rows@.map(|j: int, row: Vec<T>| row@.map(|i: int, x: T| x.sval())),
            r is Err ==> r == SlalErr::<Matrix<T>>::Err(SlalError::UnmatchingOperandLength),
    {
        let height = rows.len();
        let width = if height > 0 {
            rows[0].len()
        } else {
            0
        };
        let mut m: Vec<T> = Vec::new();
        let mut j: usize = 0;
        while j < height
            invariant
                0 <= j <= height,
                height == rows@.len(),
                width as int == (if height > 0 {
                    rows@[0]@.len() as int
                } else {
                    0
                }),
                m@.len() == j * width,
                forall|j2: int|
                    0 <= j2 < j ==> (#[trigger] rows@[j2])@.len() == width,
                forall|j2: int, i2: int|
                    0 <= j2 < j && 0 <= i2 < width ==> m@[j2 * width + i2] == (
                    #[trigger] rows@[j2]@[i2]),
            decreases height - j,
        {
            if rows[j].len() != width {
                return Err(SlalError::UnmatchingOperandLength);
            }
            let mut i: usize = 0;
            while i < width
                invariant
                    0 <= i <= width,
                    0 <= j < height,
                    height == rows@.len(),
                    rows@[j as int]@.len() == width,
                    m@.len() == j * width + i,
                    forall|j2: int|
                        0 <= j2 < j ==> (#[trigger] rows@[j2])@.len() == width,
                    forall|j2: int, i2: int|
                        0 <= j2 < j && 0 <= i2 < width ==> m@[j2 * width + i2] == (
                        #[trigger] rows@[j2]@[i2]),
                    forall|i2: int|
                        0 <= i2 < i ==> m@[j * width + i2] == (#[trigger] rows@[j as int]@[i2]),
                decreases width - i,
            {
                proof {
                    lemma_flat_index(j as int, i as int, width as int, height as int);
                    assert(rows@[j as int]@.len() == width);
                }
                m.push(rows[j][i]);
                i = i + 1;
                proof {
                    assert forall|j2: int, i2: int|
                        0 <= j2 < j && 0 <= i2 < width implies m@[j2 * width + i2] == (
                    #[trigger] rows@[j2]@[i2]) by {
                        lemma_flat_index(j2, i2, width as int, j as int);
                    }
                }
            }
            j = j + 1;
            proof {
                assert(m@.len() == (j - 1) * width + width == j * width) by (nonlinear_arith)
                    requires
                        m@.len() == (j - 1) * width + width,
                ;
                assert forall|j2: int, i2: int|
                    0 <= j2 < j && 0 <= i2 < width implies m@[j2 * width + i2] == (
                #[trigger] rows@[j2]@[i2]) by {
                    lemma_flat_index(j2, i2, width as int, j as int);
                }
            }
        }
        let res = Matrix { m, width, height };
        proof {
            assert(res.m@.len() == height * width);
            assert(res.wf()) by (nonlinear_arith)
                requires
                    res.m@.len() == res.height * res.width,
            ;
            assert forall|j2: int|
                0 <= j2 < height implies res@[j2] == (#[trigger] rows@[j2])@.map(
                |i: int, x: T| x.sval(),
            ) by {
                assert forall|i2: int| 0 <= i2 < width implies res@[j2][i2] == rows@[j2]@.map(
                    |i: int, x: T| x.sval(),
                )[i2] by {
                    lemma_flat_index(j2, i2, width as int, height as int);
                }
                assert(res@[j2] =~= rows@[j2]@.map(|i: int, x: T| x.sval()));
            }
            assert(res@ =~= rows@.map(|j: int, row: Vec<T>| row@.map(|i: int, x: T| x.sval())));
        }
        Ok(res)
    }

    /// The shape as `(width, height)`.
    pub fn size(&self) -> (r: (usize, usize))
        ensures
            r.0 == self.width,
            r.1 == self.height,
    {
        (self.width, self.height)
    }

    /// Whether the matrix has no entries.
    pub fn is_empty(&self) -> (r: bool)
        requires
            self.wf(),
        ensures
            r <==> self.width * self.height == 0,
    {
        self.m.len() == 0
    }

    /// The entry at row `j`, column `i`.
    pub fn get(&self, j: usize, i: usize) -> (r: T)
        requires
            self.wf(),
            j < self.height,
            i < self.width,
        ensures
            r.sval() == self@[j as int][i as int],
    {
        let mlen = self.m.len();
        proof {
            lemma_flat_index(j as int, i as int, self.width as int, self.height as int);
            assert(j * self.width + i < mlen);
        }
        self.m[j * self.width + i]
    }

    /// Transposes the matrix in place: width and height swap and the storage
    /// is permuted. Applying it twice restores the original value.
    pub fn t(&mut self)
        requires
            old(self).wf(),
        ensures
            final(self).wf(),
            final(self).width == old(self).height,
            final(self).height == old(self).width,
            final(self)@ == grid_transpose(old(self)@, old(self).width as int),
    {
        let w = self.width;
        let h = self.height;
        let mlen = self.m.len();
        let ghost oldview = self@;
        let mut nm: Vec<T> = Vec::new();
        let mut i: usize = 0;
        while i < w
            invariant
                0 <= i <= w,
                w == self.width,
                h == self.height,
                mlen == self.m@.len(),
                self.wf(),
                self == old(self),
                oldview == self@,
                nm@.len() == i * h,
                forall|i2: int, j2: int|
                    0 <= i2 < i && 0 <= j2 < h ==> (#[trigger] oldview[j2][i2]) == nm@[i2 * h
                        + j2].sval(),
            decreases w - i,
        {
            let mut j: usize = 0;
            while j < h
                invariant
                    0 <= j <= h,
                    0 <= i < w,
                    w == self.width,
                    h == self.height,
                    mlen == self.m@.len(),
                    self.wf(),
                    self == old(self),
                    oldview == self@,
                    nm@.len() == i * h + j,
                    forall|i2: int, j2: int|
                        0 <= i2 < i && 0 <= j2 < h ==> (#[trigger] oldview[j2][i2]) == nm@[i2 * h
                            + j2].sval(),
                    forall|j2: int|
                        0 <= j2 < j ==> (#[trigger] oldview[j2][i as int]) == nm@[i * h
                            + j2].sval(),
                decreases h - j,
            {
                proof {
                    lemma_flat_index(j as int, i as int, w as int, h as int);
                    assert(j * w + i < mlen);
                    assert(oldview[j as int][i as int] == self.m@[j * w + i].sval());
                }
                nm.push(self.m[j * w + i]);
                j = j + 1;
                proof {
                    assert forall|i2: int, j2: int|
                        0 <= i2 < i && 0 <= j2 < h implies (#[trigger] oldview[j2][i2]) == nm@[i2
                        * h + j2].sval() by {
                        lemma_flat_index(i2, j2, h as int, i as int);
                    }
                }
            }
            i = i + 1;
            proof {
                assert(nm@.len() == (i - 1) * h + h == i * h) by (nonlinear_arith)
                    requires
                        nm@.len() == (i - 1) * h + h,
                ;
            }
        }
        self.m = nm;
        self.width = h;
        self.height = w;
        proof {
            assert(self.m@.len() == w * h);
            assert(self.wf()) by (nonlinear_arith)
                requires
                    self.m@.len() == w * h,
                    self.width == h,
                    self.height == w,
            ;
            assert forall|i2: int|
                0 <= i2 < w implies self@[i2] == grid_transpose(oldview, w as int)[i2] by {
                assert forall|j2: int|
                    0 <= j2 < h implies self@[i2][j2] == oldview[j2][i2] by {
                    lemma_flat_index(i2, j2, h as int, w as int);
                    assert(oldview[j2][i2] == self.m@[i2 * h + j2].sval());
                }
                assert(self@[i2] =~= grid_transpose(oldview, w as int)[i2]);
            }
            assert(self@ =~= grid_transpose(oldview, w as int));
        }
    }
}

impl<T: WideScalar> Matrix<T> {
    /// Widens every entry exactly into the promoted kind; the mathematical
    /// contents are unchanged.
    pub fn promote(&self) -> (r: Matrix<i128>)
        requires
            self.wf(),
        ensures
            r.wf(),
            r.width == self.width,
            r.height == self.height,
            r@ == self@,
    {
        let mut nm: Vec<i128> = Vec::new();
        let n = self.m.len();
        let mut k: usize = 0;
        while k < n
            invariant
                0 <= k <= n,
                n == self.m@.len(),
                nm@.len() == k,
                forall|k2: int| 0 <= k2 < k ==> (#[trigger] nm@[k2]) as int == self.m@[k2].sval(),
            decreases n - k,
        {
            nm.push(self.m[k].to_wide());
            k = k + 1;
        }
        let ghost nmv = nm@;
        let res = Matrix { m: nm, width: self.width, height: self.height };
        proof {
            assert(res.m@ == nmv);
            assert forall|j2: int|
                0 <= j2 < self.height implies res@[j2] == self@[j2] by {
                assert forall|i2: int|
                    0 <= i2 < self.width implies res@[j2][i2] == self@[j2][i2] by {
                    lemma_flat_index(j2, i2, self.width as int, self.height as int);
                    assert(self.height * self.width == self.width * self.height)
                        by (nonlinear_arith);
                    assert(n == self.m@.len());
                    assert(0 <= j2 * self.width + i2 < n);
                    assert(nmv[j2 * self.width + i2] as int == self.m@[j2 * self.width
                        + i2].sval());
                }
                assert(res@[j2] =~= self@[j2]);
            }
            assert(res@ =~= self@);
        }
        res
    }
}

} // verus!
