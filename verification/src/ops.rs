use vstd::prelude::*;

use crate::error::SlalError;
use crate::error::SlalErr;
use crate::linear::Cross;
use crate::linear::Dot;
use crate::matrix::Matrix;
use crate::matrix::lemma_flat_index;
use crate::scalar::Scalar;
use crate::vertex::Vertex;

verus! {

/// Whether `x` fits in the element kind `T`.
pub open spec fn in_range<T: Scalar>(x: int) -> bool {
    T::min_int() <= x <= T::max_int()
}

/// The sum of the first `k` elementwise products of `a` and `b`.
pub open spec fn dot_prefix(a: Seq<int>, b: Seq<int>, k: int) -> int
    decreases k,
{
    if k <= 0 {
        0
    } else {
        dot_prefix(a, b, k - 1) + a[k - 1] * b[k - 1]
    }
}

/// The inner product of two equal-length sequences.
pub open spec fn dot_val(a: Seq<int>, b: Seq<int>) -> int {
    dot_prefix(a, b, a.len() as int)
}

/// The product of matching elements of `a` and `b`.
pub open spec fn prod2(a: Seq<int>, b: Seq<int>, i: int) -> int {
    a[i] * b[i]
}

/// Every partial value of the inner product of `a` and `b` fits in `T`.
pub open spec fn dot_fits<T: Scalar>(a: Seq<int>, b: Seq<int>) -> bool {
    &&& forall|i: int| 0 <= i < a.len() ==> in_range::<T>(#[trigger] prod2(a, b, i))
    &&& forall|k: int| 0 <= k <= a.len() ==> in_range::<T>(#[trigger] dot_prefix(a, b, k))
}

/// The sum of the first `k` products `v[t] * g[t][i]`: the weight of column
/// `i` of `g` under the coefficients `v`.
pub open spec fn col_dot_prefix(v: Seq<int>, g: Seq<Seq<int>>, i: int, k: int) -> int
    decreases k,
{
    if k <= 0 {
        0
    } else {
        col_dot_prefix(v, g, i, k - 1) + v[k - 1] * g[k - 1][i]
    }
}

/// The product `v[t] * g[t][i]`.
pub open spec fn col_prod(v: Seq<int>, g: Seq<Seq<int>>, i: int, t: int) -> int {
    v[t] * g[t][i]
}

/// Every partial value of every column weight of `g` under `v` fits in `T`;
/// `w` is the number of columns.
pub open spec fn col_dot_fits<T: Scalar>(v: Seq<int>, g: Seq<Seq<int>>, w: int) -> bool {
    &&& forall|i: int, t: int|
        0 <= i < w && 0 <= t < v.len() ==> in_range::<T>(#[trigger] col_prod(v, g, i, t))
    &&& forall|i: int, k: int|
        0 <= i < w && 0 <= k <= v.len() ==> in_range::<T>(#[trigger] col_dot_prefix(v, g, i, k))
}

impl<T: Scalar> Vertex<T> {
    /// Elementwise sum. Vertices of unmatching length are rejected; the
    /// result keeps the orientation of `self`.
    pub fn add(&self, other: &Vertex<T>) -> (r: SlalErr<Vertex<T>>)
        requires
            self@.len() == other@.len() ==> forall|i: int|
                0 <= i < self@.len() ==> in_range::<T>(#[trigger] (self@[i] + other@[i])),
        ensures
            self@.len() != other@.len() ==> r == SlalErr::<Vertex<T>>::Err(
                SlalError::UnmatchingOperandLength,
            ),
            self@.len() == other@.len() ==> (r matches Ok(v) && v@.len() == self@.len()
                && v.transposed == self.transposed && (forall|i: int|
                0 <= i < self@.len() ==> v@[i] == self@[i] + other@[i])),
    {
        if self.len() != other.len() {
            return Err(SlalError::UnmatchingOperandLength);
        }
        let n = self.len();
        let mut rv: Vec<T> = Vec::new();
        let mut i: usize = 0;
        while i < n
            invariant
                0 <= i <= n,
                n == self@.len() == other@.len(),
                rv@.len() == i,
                forall|k: int| 0 <= k < i ==> rv@.map(|q: int, x: T| x.sval())[k] == self@[k]
                    + other@[k],
                forall|k: int|
                    0 <= k < n ==> in_range::<T>(#[trigger] (self@[k] + other@[k])),
            decreases n - i,
        {
            rv.push(self.get(i).add_s(other.get(i)));
            i = i + 1;
        }
        Ok(Vertex { v: rv, transposed: self.is_transposed() })
    }

    /// Elementwise difference. Vertices of unmatching length are rejected;
    /// the result keeps the orientation of `self`.
    pub fn sub(&self, other: &Vertex<T>) -> (r: SlalErr<Vertex<T>>)
        requires
            self@.len() == other@.len() ==> forall|i: int|
                0 <= i < self@.len() ==> in_range::<T>(#[trigger] (self@[i] - other@[i])),
        ensures
            self@.len() != other@.len() ==> r == SlalErr::<Vertex<T>>::Err(
                SlalError::UnmatchingOperandLength,
            ),
            self@.len() == other@.len() ==> (r matches Ok(v) && v@.len() == self@.len()
                && v.transposed == self.transposed && (forall|i: int|
                0 <= i < self@.len() ==> v@[i] == self@[i] - other@[i])),
    {
        if self.len() != other.len() {
            return Err(SlalError::UnmatchingOperandLength);
        }
        let n = self.len();
        let mut rv: Vec<T> = Vec::new();
        let mut i: usize = 0;
        while i < n
            invariant
                0 <= i <= n,
                n == self@.len() == other@.len(),
                rv@.len() == i,
                forall|k: int| 0 <= k < i ==> rv@.map(|q: int, x: T| x.sval())[k] == self@[k]
                    - other@[k],
                forall|k: int|
                    0 <= k < n ==> in_range::<T>(#[trigger] (self@[k] - other@[k])),
            decreases n - i,
        {
            rv.push(self.get(i).sub_s(other.get(i)));
            i = i + 1;
        }
        Ok(Vertex { v: rv, transposed: self.is_transposed() })
    }

    /// Elementwise scaling by `s`; always defined, keeping the orientation.
    pub fn scale(&self, s: T) -> (r: Vertex<T>)
        requires
            forall|i: int| 0 <= i < self@.len() ==> in_range::<T>(#[trigger] (self@[i] * s.sval())),
        ensures
            r@.len() == self@.len(),
            r.transposed == self.transposed,
            forall|i: int| 0 <= i < self@.len() ==> r@[i] == self@[i] * s.sval(),
    {
        let n = self.len();
        let mut rv: Vec<T> = Vec::new();
        let mut i: usize = 0;
        while i < n
            invariant
                0 <= i <= n,
                n == self@.len(),
                rv@.len() == i,
                forall|k: int| 0 <= k < i ==> rv@.map(|q: int, x: T| x.sval())[k] == self@[k]
                    * s.sval(),
                forall|k: int|
                    0 <= k < n ==> in_range::<T>(#[trigger] (self@[k] * s.sval())),
            decreases n - i,
        {
            rv.push(self.get(i).mul_s(s));
            i = i + 1;
        }
        Vertex { v: rv, transposed: self.is_transposed() }
    }

}

impl<T: Scalar> Dot<Vertex<T>> for Vertex<T> {
    type Output = SlalErr<T>;

    /// Room in the kind for every partial value of the inner product.
    open spec fn dot_req(&self, other: &Vertex<T>) -> bool {
        (self@.len() == other@.len() && !self.transposed && other.transposed) ==> dot_fits::<T>(
            self@,
            other@,
        )
    }

    /// A row vertex against a column vertex of the same length sums the
    /// elementwise products; unmatching lengths and wrong orientations are
    /// rejected, in that order.
    open spec fn dot_post(&self, other: &Vertex<T>, r: SlalErr<T>) -> bool {
        &&& self@.len() != other@.len() ==> r == SlalErr::<T>::Err(
            SlalError::UnmatchingOperandLength,
        )
        &&& self@.len() == other@.len() && (self.transposed || !other.transposed) ==> r
            == SlalErr::<T>::Err(SlalError::OrientationError)
        &&& self@.len() == other@.len() && !self.transposed && other.transposed ==> (r matches Ok(
        s) && s.sval() == dot_val(self@, other@))
    }

    fn dot(&self, other: &Vertex<T>) -> (r: SlalErr<T>) {
        if self.len() != other.len() {
            return Err(SlalError::UnmatchingOperandLength);
        }
        if self.is_transposed() || !other.is_transposed() {
            return Err(SlalError::OrientationError);
        }
        let n = self.len();
        let mut acc = T::zero();
        let mut i: usize = 0;
        while i < n
            invariant
                0 <= i <= n,
                n == self@.len() == other@.len(),
                dot_fits::<T>(self@, other@),
                acc.sval() == dot_prefix(self@, other@, i as int),
            decreases n - i,
        {
            proof {
                assert(in_range::<T>(prod2(self@, other@, i as int)));
                assert(in_range::<T>(dot_prefix(self@, other@, i + 1)));
            }
            acc = acc.add_s(self.get(i).mul_s(other.get(i)));
            i = i + 1;
        }
        Ok(acc)
    }
}

/// The weight of column `i` of `g` under all coefficients of `v`.
pub open spec fn col_dot_val(v: Seq<int>, g: Seq<Seq<int>>, i: int) -> int {
    col_dot_prefix(v, g, i, v.len() as int)
}

/// The first product of the cyclic cross formula at position `k`.
pub open spec fn cross_p1(a: Seq<int>, b: Seq<int>, k: int) -> int {
    a[(k + 1) % (a.len() as int)] * b[(k + 2) % (a.len() as int)]
}

/// The second product of the cyclic cross formula at position `k`.
pub open spec fn cross_p2(a: Seq<int>, b: Seq<int>, k: int) -> int {
    a[(k + 2) % (a.len() as int)] * b[(k + 1) % (a.len() as int)]
}

/// The generalized cross product entry at position `k`, built from cyclic
/// index pairs; at length 3 this is the classical 3-vector formula.
pub open spec fn cross_val(a: Seq<int>, b: Seq<int>, k: int) -> int {
    cross_p1(a, b, k) - cross_p2(a, b, k)
}

/// Every product and difference of the cross formula fits in `T`.
pub open spec fn cross_fits<T: Scalar>(a: Seq<int>, b: Seq<int>) -> bool {
    &&& forall|k: int| 0 <= k < a.len() ==> in_range::<T>(#[trigger] cross_p1(a, b, k))
    &&& forall|k: int| 0 <= k < a.len() ==> in_range::<T>(#[trigger] cross_p2(a, b, k))
    &&& forall|k: int|
        0 <= k < a.len() ==> in_range::<T>(#[trigger] cross_p1(a, b, k) - cross_p2(a, b, k))
}

/// The outer product entry `a[j] * b[i]`.
pub open spec fn outer_prod(a: Seq<int>, b: Seq<int>, j: int, i: int) -> int {
    a[j] * b[i]
}

impl<T: Scalar> Vertex<T> {
    /// The checked counterpart of the product operator on two vertices of
    /// equal length: a row against a column gives the inner product as a
    /// one-by-one matrix, a column against a row the outer-product matrix.
    pub fn mul(&self, other: &Vertex<T>) -> (r: SlalErr<Matrix<T>>)
        requires
            (self@.len() == other@.len() && !self.transposed && other.transposed) ==> dot_fits::<
                T,
            >(self@, other@),
            (self@.len() == other@.len() && self.transposed && !other.transposed) ==> forall|
                j: int,
                i: int,
            |
                0 <= j < self@.len() && 0 <= i < self@.len() ==> in_range::<T>(
                    #[trigger] outer_prod(self@, other@, j, i),
                ),
        ensures
            self@.len() != other@.len() ==> r == SlalErr::<Matrix<T>>::Err(
                SlalError::UnmatchingOperandLength,
            ),
            self@.len() == other@.len() && self.transposed == other.transposed ==> r == SlalErr::<
                Matrix<T>,
            >::Err(SlalError::OrientationError),
            self@.len() == other@.len() && !self.transposed && other.transposed ==> (r matches Ok(
            m) && m.wf() && m.width == 1 && m.height == 1 && m@[0][0] == dot_val(self@, other@)),
            self@.len() == other@.len() && self.transposed && !other.transposed ==> (r matches Ok(
            m) && m.wf() && m.width == self@.len() && m.height == self@.len() && (forall|
                j: int,
                i: int,
            |
                0 <= j < self@.len() && 0 <= i < self@.len() ==> m@[j][i] == outer_prod(
                    self@,
                    other@,
                    j,
                    i,
                ))),
    {
        if self.len() != other.len() {
            return Err(SlalError::UnmatchingOperandLength);
        }
        if self.is_transposed() == other.is_transposed() {
            return Err(SlalError::OrientationError);
        }
        let n = self.len();
        if !self.is_transposed() {
            // row * column: the inner product as a 1x1 matrix
            let mut acc = T::zero();
            let mut i: usize = 0;
            while i < n
                invariant
                    0 <= i <= n,
                    n == self@.len() == other@.len(),
                    dot_fits::<T>(self@, other@),
                    acc.sval() == dot_prefix(self@, other@, i as int),
                decreases n - i,
            {
                proof {
                    assert(in_range::<T>(prod2(self@, other@, i as int)));
                    assert(in_range::<T>(dot_prefix(self@, other@, i + 1)));
                }
                acc = acc.add_s(self.get(i).mul_s(other.get(i)));
                i = i + 1;
            }
            let mut m: Vec<T> = Vec::new();
            m.push(acc);
            let res = Matrix { m, width: 1, height: 1 };
            proof {
                assert(res.wf());
                assert(res.m@[0].sval() == dot_val(self@, other@));
                assert(res@[0][0] == res.m@[0].sval());
            }
            Ok(res)
        } else {
            // column * row: the outer-product matrix
            let mut m: Vec<T> = Vec::new();
            let mut j: usize = 0;
            while j < n
                invariant
                    0 <= j <= n,
                    n == self@.len() == other@.len(),
                    m@.len() == j * n,
                    forall|j2: int, i2: int|
                        0 <= j2 < j && 0 <= i2 < n ==> m@[j2 * n + i2].sval() == (
                        #[trigger] outer_prod(self@, other@, j2, i2)),
                    forall|j2: int, i2: int|
                        0 <= j2 < n && 0 <= i2 < n ==> in_range::<T>(
                            #[trigger] outer_prod(self@, other@, j2, i2),
                        ),
                decreases n - j,
            {
                let mut i: usize = 0;
                while i < n
                    invariant
                        0 <= i <= n,
                        0 <= j < n,
                        n == self@.len() == other@.len(),
                        m@.len() == j * n + i,
                        forall|j2: int, i2: int|
                            0 <= j2 < j && 0 <= i2 < n ==> m@[j2 * n + i2].sval() == (
                            #[trigger] outer_prod(self@, other@, j2, i2)),
                        forall|i2: int|
                            0 <= i2 < i ==> m@[j * n + i2].sval() == (#[trigger] outer_prod(
                                self@,
                                other@,
                                j as int,
                                i2,
                            )),
                        forall|j2: int, i2: int|
                            0 <= j2 < n && 0 <= i2 < n ==> in_range::<T>(
                                #[trigger] outer_prod(self@, other@, j2, i2),
                            ),
                    decreases n - i,
                {
                    proof {
                        assert(in_range::<T>(outer_prod(self@, other@, j as int, i as int)));
                    }
                    m.push(self.get(j).mul_s(other.get(i)));
                    i = i + 1;
                    proof {
                        assert forall|j2: int, i2: int|
                            0 <= j2 < j && 0 <= i2 < n implies m@[j2 * n + i2].sval() == (
                        #[trigger] outer_prod(self@, other@, j2, i2)) by {
                            crate::matrix::lemma_flat_index(j2, i2, n as int, j as int);
                        }
                    }
                }
                j = j + 1;
                proof {
                    assert(m@.len() == (j - 1) * n + n == j * n) by (nonlinear_arith)
                        requires
                            m@.len() == (j - 1) * n + n,
                    ;
                }
            }
            let res = Matrix { m, width: n, height: n };
            proof {
                assert(res.wf()) by (nonlinear_arith)
                    requires
                        res.m@.len() == n * n,
                        res.width == n,
                        res.height == n,
                ;
                assert forall|j2: int, i2: int|
                    0 <= j2 < n && 0 <= i2 < n implies res@[j2][i2] == outer_prod(
                    self@,
                    other@,
                    j2,
                    i2,
                ) by {
                    crate::matrix::lemma_flat_index(j2, i2, n as int, n as int);
                }
            }
            Ok(res)
        }
    }

}

impl<T: Scalar> Cross<Vertex<T>> for Vertex<T> {
    type Output = SlalErr<Vertex<T>>;

    /// Room in the kind for every product and difference of the cyclic
    /// formula.
    open spec fn cross_req(&self, other: &Vertex<T>) -> bool {
        (self@.len() == other@.len() && !self.transposed && other.transposed) ==> cross_fits::<T>(
            self@,
            other@,
        )
    }

    /// The generalized cross product via cyclic index pairs, for a row
    /// vertex against a column vertex of the same length; mathematically
    /// meaningful chiefly at length three. Unmatching lengths and wrong
    /// orientations are rejected, in that order.
    open spec fn cross_post(&self, other: &Vertex<T>, r: SlalErr<Vertex<T>>) -> bool {
        &&& self@.len() != other@.len() ==> r == SlalErr::<Vertex<T>>::Err(
            SlalError::UnmatchingOperandLength,
        )
        &&& self@.len() == other@.len() && (self.transposed || !other.transposed) ==> r
            == SlalErr::<Vertex<T>>::Err(SlalError::OrientationError)
        &&& self@.len() == other@.len() && !self.transposed && other.transposed ==> (r matches Ok(
        v) && v@.len() == self@.len() && !v.transposed && (forall|k: int|
            0 <= k < self@.len() ==> v@[k] == cross_val(self@, other@, k)))
    }

    fn cross(&self, other: &Vertex<T>) -> (r: SlalErr<Vertex<T>>) {
        if self.len() != other.len() {
            return Err(SlalError::UnmatchingOperandLength);
        }
        if self.is_transposed() || !other.is_transposed() {
            return Err(SlalError::OrientationError);
        }
        let n = self.len();
        let mut rv: Vec<T> = Vec::new();
        let mut k: usize = 0;
        while k < n
            invariant
                0 <= k <= n,
                n == self@.len() == other@.len(),
                rv@.len() == k,
                cross_fits::<T>(self@, other@),
                forall|k2: int| 0 <= k2 < k ==> rv@[k2].sval() == cross_val(self@, other@, k2),
            decreases n - k,
        {
            proof {
                assert(in_range::<T>(cross_p1(self@, other@, k as int)));
                assert(in_range::<T>(cross_p2(self@, other@, k as int)));
                assert(in_range::<T>(cross_p1(self@, other@, k as int) - cross_p2(
                    self@,
                    other@,
                    k as int,
                )));
            }
            let i1 = if k + 1 < n {
                k + 1
            } else {
                k + 1 - n
            };
            let i2 = if i1 + 1 < n {
                i1 + 1
            } else {
                i1 + 1 - n
            };
            proof {
                if k + 1 < n {
                    vstd::arithmetic::div_mod::lemma_fundamental_div_mod_converse(
                        k + 1,
                        n as int,
                        0,
                        i1 as int,
                    );
                } else {
                    vstd::arithmetic::div_mod::lemma_fundamental_div_mod_converse(
                        k + 1,
                        n as int,
                        1,
                        i1 as int,
                    );
                }
                if i1 + 1 < n {
                    if k + 1 < n {
                        vstd::arithmetic::div_mod::lemma_fundamental_div_mod_converse(
                            k + 2,
                            n as int,
                            0,
                            i2 as int,
                        );
                    } else {
                        vstd::arithmetic::div_mod::lemma_fundamental_div_mod_converse(
                            k + 2,
                            n as int,
                            1,
                            i2 as int,
                        );
                    }
                } else {
                    if k + 1 < n {
                        vstd::arithmetic::div_mod::lemma_fundamental_div_mod_converse(
                            k + 2,
                            n as int,
                            1,
                            i2 as int,
                        );
                    } else {
                        vstd::arithmetic::div_mod::lemma_fundamental_div_mod_converse(
                            k + 2,
                            n as int,
                            2,
                            i2 as int,
                        );
                    }
                }
                assert(i1 as int == (k + 1) % (n as int));
                assert(i2 as int == (k + 2) % (n as int));
            }
            let p1 = self.get(i1).mul_s(other.get(i2));
            let p2 = self.get(i2).mul_s(other.get(i1));
            rv.push(p1.sub_s(p2));
            k = k + 1;
        }
        Ok(Vertex { v: rv, transposed: false })
    }
}

/// The scaled entry `g[j][i] * s`.
pub open spec fn scale_prod(g: Seq<Seq<int>>, j: int, i: int, s: int) -> int {
    g[j][i] * s
}

impl<T: Scalar> Dot<Matrix<T>> for Vertex<T> {
    type Output = SlalErr<Vertex<T>>;

    /// A valid operand matrix, and room in the kind for every partial value
    /// of every column weight.
    open spec fn dot_req(&self, other: &Matrix<T>) -> bool {
        &&& other.wf()
        &&& (!self.transposed && self@.len() == other.height) ==> col_dot_fits::<T>(
            self@,
            other@,
            other.width as int,
        )
    }

    /// A row vertex against a matrix whose height is the vertex length
    /// gives the row vertex of column weights: entry `i` sums
    /// `self[t] * other[t][i]`. A column vertex is rejected first, then an
    /// unmatching length.
    open spec fn dot_post(&self, other: &Matrix<T>, r: SlalErr<Vertex<T>>) -> bool {
        &&& self.transposed ==> r == SlalErr::<Vertex<T>>::Err(SlalError::OrientationError)
        &&& !self.transposed && self@.len() != other.height ==> r == SlalErr::<Vertex<T>>::Err(
            SlalError::ShapeMismatch,
        )
        &&& !self.transposed && self@.len() == other.height ==> (r matches Ok(v) && v@.len()
            == other.width && !v.transposed && (forall|i: int|
            0 <= i < other.width ==> v@[i] == #[trigger] col_dot_val(self@, other@, i)))
    }

    fn dot(&self, other: &Matrix<T>) -> (r: SlalErr<Vertex<T>>) {
        if self.is_transposed() {
            return Err(SlalError::OrientationError);
        }
        if self.len() != other.size().1 {
            return Err(SlalError::ShapeMismatch);
        }
        let n = self.len();
        let w = other.size().0;
        let mut rv: Vec<T> = Vec::new();
        let mut i: usize = 0;
        while i < w
            invariant
                0 <= i <= w,
                n == self@.len() == other.height,
                w == other.width,
                other.wf(),
                col_dot_fits::<T>(self@, other@, w as int),
                rv@.len() == i,
                forall|i2: int|
                    0 <= i2 < i ==> rv@[i2].sval() == #[trigger] col_dot_val(self@, other@, i2),
            decreases w - i,
        {
            let mut acc = T::zero();
            let mut t: usize = 0;
            while t < n
                invariant
                    0 <= t <= n,
                    0 <= i < w,
                    n == self@.len() == other.height,
                    w == other.width,
                    other.wf(),
                    col_dot_fits::<T>(self@, other@, w as int),
                    acc.sval() == col_dot_prefix(self@, other@, i as int, t as int),
                decreases n - t,
            {
                proof {
                    assert(in_range::<T>(col_prod(self@, other@, i as int, t as int)));
                    assert(in_range::<T>(col_dot_prefix(self@, other@, i as int, t + 1)));
                }
                acc = acc.add_s(self.get(t).mul_s(other.get(t, i)));
                t = t + 1;
            }
            rv.push(acc);
            i = i + 1;
        }
        Ok(Vertex { v: rv, transposed: false })
    }
}

impl<T: Scalar> Dot<Vertex<T>> for Matrix<T> {
    type Output = SlalErr<Vertex<T>>;

    /// A valid matrix, and room in the kind for every partial value of
    /// every row product.
    open spec fn dot_req(&self, other: &Vertex<T>) -> bool {
        &&& self.wf()
        &&& (other.transposed && self.width == other@.len()) ==> forall|j: int|
            0 <= j < self.height ==> dot_fits::<T>(#[trigger] self@[j], other@)
    }

    /// A matrix against a column vertex of length equal to the matrix width
    /// gives the column vertex of row products: entry `j` sums
    /// `self[j][t] * other[t]`. A row vertex is rejected first, then an
    /// unmatching length.
    open spec fn dot_post(&self, other: &Vertex<T>, r: SlalErr<Vertex<T>>) -> bool {
        &&& !other.transposed ==> r == SlalErr::<Vertex<T>>::Err(SlalError::OrientationError)
        &&& other.transposed && self.width != other@.len() ==> r == SlalErr::<Vertex<T>>::Err(
            SlalError::ShapeMismatch,
        )
        &&& other.transposed && self.width == other@.len() ==> (r matches Ok(v) && v@.len()
            == self.height && v.transposed && (forall|j: int|
            0 <= j < self.height ==> v@[j] == dot_val(#[trigger] self@[j], other@)))
    }

    fn dot(&self, other: &Vertex<T>) -> (r: SlalErr<Vertex<T>>) {
        if !other.is_transposed() {
            return Err(SlalError::OrientationError);
        }
        if self.size().0 != other.len() {
            return Err(SlalError::ShapeMismatch);
        }
        let n = self.size().0;
        let h = self.size().1;
        let mut rv: Vec<T> = Vec::new();
        let mut j: usize = 0;
        while j < h
            invariant
                0 <= j <= h,
                n == self.width == other@.len(),
                h == self.height,
                self.wf(),
                forall|j2: int| 0 <= j2 < h ==> dot_fits::<T>(#[trigger] self@[j2], other@),
                rv@.len() == j,
                forall|j2: int|
                    0 <= j2 < j ==> rv@[j2].sval() == dot_val(#[trigger] self@[j2], other@),
            decreases h - j,
        {
            let mut acc = T::zero();
            let mut t: usize = 0;
            while t < n
                invariant
                    0 <= t <= n,
                    0 <= j < h,
                    n == self.width == other@.len(),
                    h == self.height,
                    self.wf(),
                    dot_fits::<T>(self@[j as int], other@),
                    acc.sval() == dot_prefix(self@[j as int], other@, t as int),
                decreases n - t,
            {
                proof {
                    assert(in_range::<T>(prod2(self@[j as int], other@, t as int)));
                    assert(in_range::<T>(dot_prefix(self@[j as int], other@, t + 1)));
                }
                acc = acc.add_s(self.get(j, t).mul_s(other.get(t)));
                t = t + 1;
            }
            rv.push(acc);
            j = j + 1;
        }
        Ok(Vertex { v: rv, transposed: true })
    }
}

impl<T: Scalar> Dot<Matrix<T>> for Matrix<T> {
    type Output = SlalErr<Matrix<T>>;

    /// Valid operand matrices, and room in the kind for every partial value
    /// of every result entry.
    open spec fn dot_req(&self, other: &Matrix<T>) -> bool {
        &&& self.wf()
        &&& other.wf()
        &&& self.width == other.height ==> forall|j: int|
            0 <= j < self.height ==> col_dot_fits::<T>(
                #[trigger] self@[j],
                other@,
                other.width as int,
            )
    }

    /// The matrix product: defined when the left width equals the right
    /// height; the result has the right's width and the left's height, and
    /// entry `(j, i)` sums `self[j][t] * other[t][i]`.
    open spec fn dot_post(&self, other: &Matrix<T>, r: SlalErr<Matrix<T>>) -> bool {
        &&& self.width != other.height ==> r == SlalErr::<Matrix<T>>::Err(
            SlalError::UnmatchingOperandLength,
        )
        &&& self.width == other.height ==> (r matches Ok(m) && m.wf() && m.width == other.width
            && m.height == self.height && (forall|j: int, i: int|
            0 <= j < self.height && 0 <= i < other.width ==> m@[j][i] == #[trigger] col_dot_val(
                self@[j],
                other@,
                i,
            )))
    }

    fn dot(&self, other: &Matrix<T>) -> (r: SlalErr<Matrix<T>>) {
        if self.size().0 != other.size().1 {
            return Err(SlalError::UnmatchingOperandLength);
        }
        let n = self.size().0;
        let h = self.size().1;
        let w = other.size().0;
        let mut m: Vec<T> = Vec::new();
        let mut j: usize = 0;
        while j < h
            invariant
                0 <= j <= h,
                n == self.width == other.height,
                h == self.height,
                w == other.width,
                self.wf(),
                other.wf(),
                forall|j2: int|
                    0 <= j2 < h ==> col_dot_fits::<T>(#[trigger] self@[j2], other@, w as int),
                m@.len() == j * w,
                forall|j2: int, i2: int|
                    0 <= j2 < j && 0 <= i2 < w ==> m@[j2 * w + i2].sval() == (
                    #[trigger] col_dot_val(self@[j2], other@, i2)),
            decreases h - j,
        {
            let mut i: usize = 0;
            while i < w
                invariant
                    0 <= i <= w,
                    0 <= j < h,
                    n == self.width == other.height,
                    h == self.height,
                    w == other.width,
                    self.wf(),
                    other.wf(),
                    forall|j2: int|
                        0 <= j2 < h ==> col_dot_fits::<T>(#[trigger] self@[j2], other@, w as int),
                    m@.len() == j * w + i,
                    forall|j2: int, i2: int|
                        0 <= j2 < j && 0 <= i2 < w ==> m@[j2 * w + i2].sval() == (
                        #[trigger] col_dot_val(self@[j2], other@, i2)),
                    forall|i2: int|
                        0 <= i2 < i ==> m@[j * w + i2].sval() == (#[trigger] col_dot_val(
                            self@[j as int],
                            other@,
                            i2,
                        )),
                decreases w - i,
            {
                let mut acc = T::zero();
                let mut t: usize = 0;
                while t < n
                    invariant
                        0 <= t <= n,
                        0 <= i < w,
                        0 <= j < h,
                        n == self.width == other.height,
                        h == self.height,
                        w == other.width,
                        self.wf(),
                        other.wf(),
                        col_dot_fits::<T>(self@[j as int], other@, w as int),
                        acc.sval() == col_dot_prefix(self@[j as int], other@, i as int, t as int),
                    decreases n - t,
                {
                    proof {
                        assert(in_range::<T>(col_prod(self@[j as int], other@, i as int, t as int)));
                        assert(in_range::<T>(col_dot_prefix(self@[j as int], other@, i as int, t + 1)));
                    }
                    acc = acc.add_s(self.get(j, t).mul_s(other.get(t, i)));
                    t = t + 1;
                }
                m.push(acc);
                i = i + 1;
                proof {
                    assert forall|j2: int, i2: int|
                        0 <= j2 < j && 0 <= i2 < w implies m@[j2 * w + i2].sval() == (
                    #[trigger] col_dot_val(self@[j2], other@, i2)) by {
                        lemma_flat_index(j2, i2, w as int, j as int);
                    }
                }
            }
            j = j + 1;
            proof {
                assert(m@.len() == (j - 1) * w + w == j * w) by (nonlinear_arith)
                    requires
                        m@.len() == (j - 1) * w + w,
                ;
            }
        }
        let res = Matrix { m, width: w, height: h };
        proof {
            assert(res.wf()) by (nonlinear_arith)
                requires
                    res.m@.len() == h * w,
                    res.width == w,
                    res.height == h,
            ;
            assert forall|j2: int, i2: int|
                0 <= j2 < h && 0 <= i2 < w implies res@[j2][i2] == col_dot_val(
                self@[j2],
                other@,
                i2,
            ) by {
                lemma_flat_index(j2, i2, w as int, h as int);
            }
        }
        Ok(res)
    }
}

impl<T: Scalar> Dot<T> for Matrix<T> {
    type Output = Matrix<T>;

    /// A valid matrix, and room in the kind for every scaled entry.
    open spec fn dot_req(&self, other: &T) -> bool {
        &&& self.wf()
        &&& forall|j: int, i: int|
            0 <= j < self.height && 0 <= i < self.width ==> in_range::<T>(
                #[trigger] scale_prod(self@, j, i, other.sval()),
            )
    }

    /// Elementwise scaling: always defined, keeping the shape.
    open spec fn dot_post(&self, other: &T, r: Matrix<T>) -> bool {
        &&& r.wf()
        &&& r.width == self.width
        &&& r.height == self.height
        &&& forall|j: int, i: int|
            0 <= j < self.height && 0 <= i < self.width ==> r@[j][i] == #[trigger] scale_prod(
                self@,
                j,
                i,
                other.sval(),
            )
    }

    fn dot(&self, other: &T) -> (r: Matrix<T>) {
        let w = self.size().0;
        let h = self.size().1;
        let s = *other;
        let mut m: Vec<T> = Vec::new();
        let mut j: usize = 0;
        while j < h
            invariant
                0 <= j <= h,
                w == self.width,
                h == self.height,
                s == *other,
                self.wf(),
                forall|j2: int, i2: int|
                    0 <= j2 < h && 0 <= i2 < w ==> in_range::<T>(
                        #[trigger] scale_prod(self@, j2, i2, s.sval()),
                    ),
                m@.len() == j * w,
                forall|j2: int, i2: int|
                    0 <= j2 < j && 0 <= i2 < w ==> m@[j2 * w + i2].sval() == (
                    #[trigger] scale_prod(self@, j2, i2, s.sval())),
            decreases h - j,
        {
            let mut i: usize = 0;
            while i < w
                invariant
                    0 <= i <= w,
                    0 <= j < h,
                    w == self.width,
                    h == self.height,
                    s == *other,
                    self.wf(),
                    forall|j2: int, i2: int|
                        0 <= j2 < h && 0 <= i2 < w ==> in_range::<T>(
                            #[trigger] scale_prod(self@, j2, i2, s.sval()),
                        ),
                    m@.len() == j * w + i,
                    forall|j2: int, i2: int|
                        0 <= j2 < j && 0 <= i2 < w ==> m@[j2 * w + i2].sval() == (
                        #[trigger] scale_prod(self@, j2, i2, s.sval())),
                    forall|i2: int|
                        0 <= i2 < i ==> m@[j * w + i2].sval() == (#[trigger] scale_prod(
                            self@,
                            j as int,
                            i2,
                            s.sval(),
                        )),
                decreases w - i,
            {
                proof {
                    assert(in_range::<T>(scale_prod(self@, j as int, i as int, s.sval())));
                }
                m.push(self.get(j, i).mul_s(s));
                i = i + 1;
                proof {
                    assert forall|j2: int, i2: int|
                        0 <= j2 < j && 0 <= i2 < w implies m@[j2 * w + i2].sval() == (
                    #[trigger] scale_prod(self@, j2, i2, s.sval())) by {
                        lemma_flat_index(j2, i2, w as int, j as int);
                    }
                }
            }
            j = j + 1;
            proof {
                assert(m@.len() == (j - 1) * w + w == j * w) by (nonlinear_arith)
                    requires
                        m@.len() == (j - 1) * w + w,
                ;
            }
        }
        let res = Matrix { m, width: w, height: h };
        proof {
            assert(res.wf()) by (nonlinear_arith)
                requires
                    res.m@.len() == h * w,
                    res.width == w,
                    res.height == h,
            ;
            assert forall|j2: int, i2: int|
                0 <= j2 < h && 0 <= i2 < w implies res@[j2][i2] == scale_prod(
                self@,
                j2,
                i2,
                s.sval(),
            ) by {
                lemma_flat_index(j2, i2, w as int, h as int);
            }
        }
        res
    }
}

} // verus!
