use vstd::prelude::*;

verus! {

/// The mathematical value of a [`Rational`]: a ratio of two unbounded
/// integers. Two pairs stand for the same number when they cross-multiply
/// equally; [`rat_eq`] is that relation.
pub struct Rat {
    pub n: int,
    pub d: int,
}

/// The ratio standing for the integer `x`.
pub open spec fn rat_int(x: int) -> Rat {
    Rat { n: x, d: 1 }
}

/// The exact sum of two ratios, denominators multiplied through.
pub open spec fn rat_add(a: Rat, b: Rat) -> Rat {
    Rat { n: a.n * b.d + b.n * a.d, d: a.d * b.d }
}

/// The exact difference of two ratios.
pub open spec fn rat_sub(a: Rat, b: Rat) -> Rat {
    Rat { n: a.n * b.d - b.n * a.d, d: a.d * b.d }
}

/// The exact product of two ratios.
pub open spec fn rat_mul(a: Rat, b: Rat) -> Rat {
    Rat { n: a.n * b.n, d: a.d * b.d }
}

/// The exact quotient of two ratios; meaningful only when `b.n != 0`.
pub open spec fn rat_div(a: Rat, b: Rat) -> Rat {
    Rat { n: a.n * b.d, d: a.d * b.n }
}

/// Whether two ratios stand for the same number.
pub open spec fn rat_eq(a: Rat, b: Rat) -> bool {
    a.n * b.d == b.n * a.d
}

/// Whether the ratio stands for zero.
pub open spec fn rat_is_zero(a: Rat) -> bool {
    a.n == 0
}

/// The exact negation of a ratio.
pub open spec fn rat_neg(a: Rat) -> Rat {
    Rat { n: -a.n, d: a.d }
}

/// Room in the machine kind for the negated numerator.
pub open spec fn rat_neg_ok(a: Rat) -> bool {
    i128_ok(-a.n)
}

/// Whether `x` fits in the promoted machine kind.
pub open spec fn i128_ok(x: int) -> bool {
    i128::MIN <= x <= i128::MAX
}

/// Room in the machine kind for every intermediate of `rat_add(a, b)`.
pub open spec fn rat_add_ok(a: Rat, b: Rat) -> bool {
    i128_ok(a.n * b.d) && i128_ok(b.n * a.d) && i128_ok(a.n * b.d + b.n * a.d) && i128_ok(
        a.d * b.d,
    )
}

/// Room in the machine kind for every intermediate of `rat_sub(a, b)`.
pub open spec fn rat_sub_ok(a: Rat, b: Rat) -> bool {
    i128_ok(a.n * b.d) && i128_ok(b.n * a.d) && i128_ok(a.n * b.d - b.n * a.d) && i128_ok(
        a.d * b.d,
    )
}

/// Room in the machine kind for every intermediate of `rat_mul(a, b)`.
pub open spec fn rat_mul_ok(a: Rat, b: Rat) -> bool {
    i128_ok(a.n * b.n) && i128_ok(a.d * b.d)
}

/// Room in the machine kind for every intermediate of `rat_div(a, b)`.
pub open spec fn rat_div_ok(a: Rat, b: Rat) -> bool {
    i128_ok(a.n * b.d) && i128_ok(a.d * b.n)
}

/// An exact ratio of two promoted-kind integers. The decomposition-based
/// algorithms promote every element kind to this type, so their arithmetic
/// is exact instead of floating-point.
#[derive(Debug, Clone, Copy)]
pub struct Rational {
    pub n: i128,
    pub d: i128,
}

impl View for Rational {
    type V = Rat;

    open spec fn view(&self) -> Rat {
        Rat { n: self.n as int, d: self.d as int }
    }
}

/// The product of two nonzero integers is nonzero.
pub proof fn lemma_nonzero_mul(a: int, b: int)
    requires
        a != 0,
        b != 0,
    ensures
        a * b != 0,
{
    assert(a * b != 0) by (nonlinear_arith)
        requires
            a != 0,
            b != 0,
    ;
}

impl Rational {
    /// The denominator is never zero.
    pub open spec fn wf(&self) -> bool {
        self.d != 0
    }

    /// The ratio standing for the integer `x`.
    pub fn from_int(x: i64) -> (r: Rational)
        ensures
            r.wf(),
            r@ == rat_int(x as int),
    {
        Rational { n: x as i128, d: 1 }
    }

    /// The ratio standing for the promoted-kind integer `x`.
    pub fn from_wide(x: i128) -> (r: Rational)
        ensures
            r.wf(),
            r@ == rat_int(x as int),
    {
        Rational { n: x, d: 1 }
    }

    /// The exact sum.
    pub fn add(&self, other: &Rational) -> (r: Rational)
        requires
            self.wf(),
            other.wf(),
            rat_add_ok(self@, other@),
        ensures
            r.wf(),
            r@ == rat_add(self@, other@),
    {
        proof {
            lemma_nonzero_mul(self.d as int, other.d as int);
        }
        Rational { n: self.n * other.d + other.n * self.d, d: self.d * other.d }
    }

    /// The exact difference.
    pub fn sub(&self, other: &Rational) -> (r: Rational)
        requires
            self.wf(),
            other.wf(),
            rat_sub_ok(self@, other@),
        ensures
            r.wf(),
            r@ == rat_sub(self@, other@),
    {
        proof {
            lemma_nonzero_mul(self.d as int, other.d as int);
        }
        Rational { n: self.n * other.d - other.n * self.d, d: self.d * other.d }
    }

    /// The exact product.
    pub fn mul(&self, other: &Rational) -> (r: Rational)
        requires
            self.wf(),
            other.wf(),
            rat_mul_ok(self@, other@),
        ensures
            r.wf(),
            r@ == rat_mul(self@, other@),
    {
        proof {
            lemma_nonzero_mul(self.d as int, other.d as int);
        }
        Rational { n: self.n * other.n, d: self.d * other.d }
    }

    /// The exact quotient by a ratio standing for a nonzero number.
    pub fn div(&self, other: &Rational) -> (r: Rational)
        requires
            self.wf(),
            other.wf(),
            !rat_is_zero(other@),
            rat_div_ok(self@, other@),
        ensures
            r.wf(),
            r@ == rat_div(self@, other@),
    {
        proof {
            lemma_nonzero_mul(self.d as int, other.n as int);
        }
        Rational { n: self.n * other.d, d: self.d * other.n }
    }

    /// The exact negation.
    pub fn neg(&self) -> (r: Rational)
        requires
            self.wf(),
            rat_neg_ok(self@),
        ensures
            r.wf(),
            r@ == rat_neg(self@),
    {
        Rational { n: -self.n, d: self.d }
    }

    /// Whether this ratio stands for zero.
    pub fn is_zero(&self) -> (r: bool)
        ensures
            r == rat_is_zero(self@),
    {
        self.n == 0
    }

    /// Whether this ratio stands for the same number as `other`.
    pub fn eq_rat(&self, other: &Rational) -> (r: bool)
        requires
            rat_div_ok(self@, other@),
        ensures
            r == rat_eq(self@, other@),
    {
        proof {
            assert(self.d * other.n == other.n * self.d) by (nonlinear_arith);
        }
        self.n * other.d == self.d * other.n
    }
}

/// A two-dimensional grid of exact ratios, stored row-major like
/// [`crate::matrix::Matrix`]; the result shape of the decomposition-based
/// algorithms.
#[derive(Debug, Clone)]
pub struct MatrixR {
    pub m: Vec<Rational>,
    pub width: usize,
    pub height: usize,
}

impl View for MatrixR {
    type V = Seq<Seq<Rat>>;

    /// The mathematical contents: the sequence of rows of ratios.
    open spec fn view(&self) -> Seq<Seq<Rat>> {
        Seq::new(
            self.height as nat,
            |j: int| Seq::new(self.width as nat, |i: int| self.m@[j * self.width + i]@),
        )
    }
}

impl MatrixR {
    /// The storage matches the shape descriptor and every entry has a
    /// nonzero denominator.
    pub open spec fn wf(&self) -> bool {
        self.m@.len() == self.width * self.height && (forall|k: int|
            0 <= k < self.m@.len() ==> (#[trigger] self.m@[k]).wf())
    }

    /// The shape as `(width, height)`.
    pub fn size(&self) -> (r: (usize, usize))
        ensures
            r.0 == self.width,
            r.1 == self.height,
    {
        (self.width, self.height)
    }

    /// The entry at row `j`, column `i`.
    pub fn get(&self, j: usize, i: usize) -> (r: Rational)
        requires
            self.wf(),
            j < self.height,
            i < self.width,
        ensures
            r@ == self@[j as int][i as int],
            r.wf(),
    {
        let mlen = self.m.len();
        proof {
            crate::matrix::lemma_flat_index(j as int, i as int, self.width as int, self.height as int);
            assert(j * self.width + i < mlen);
        }
        self.m[j * self.width + i]
    }

    /// Transposes the grid in place: width and height swap and the storage
    /// is permuted.
    pub fn t(&mut self)
        requires
            old(self).wf(),
        ensures
            final(self).wf(),
            final(self).width == old(self).height,
            final(self).height == old(self).width,
            final(self)@ == rgrid_transpose(old(self)@, old(self).width as int),
    {
        let w = self.width;
        let h = self.height;
        let mlen = self.m.len();
        let ghost oldview = self@;
        let mut nm: Vec<Rational> = Vec::new();
        let mut i: usize = 0;
        while i < w
            invariant
                0 <= i <= w,
                w == self.width,
                h == self.height,
                mlen == self.m@.len(),
                self.wf(),
                self == old(self),
                oldview == self@,
                nm@.len() == i * h,
                forall|k: int| 0 <= k < nm@.len() ==> (#[trigger] nm@[k]).wf(),
                forall|i2: int, j2: int|
                    0 <= i2 < i && 0 <= j2 < h ==> (#[trigger] oldview[j2][i2]) == nm@[i2 * h
                        + j2]@,
            decreases w - i,
        {
            let mut j: usize = 0;
            while j < h
                invariant
                    0 <= j <= h,
                    0 <= i < w,
                    w == self.width,
                    h == self.height,
                    mlen == self.m@.len(),
                    self.wf(),
                    self == old(self),
                    oldview == self@,
                    nm@.len() == i * h + j,
                    forall|k: int| 0 <= k < nm@.len() ==> (#[trigger] nm@[k]).wf(),
                    forall|i2: int, j2: int|
                        0 <= i2 < i && 0 <= j2 < h ==> (#[trigger] oldview[j2][i2]) == nm@[i2 * h
                            + j2]@,
                    forall|j2: int|
                        0 <= j2 < j ==> (#[trigger] oldview[j2][i as int]) == nm@[i * h + j2]@,
                decreases h - j,
            {
                proof {
                    crate::matrix::lemma_flat_index(j as int, i as int, w as int, h as int);
                    assert(j * w + i < mlen);
                    assert(oldview[j as int][i as int] == self.m@[j * w + i]@);
                }
                nm.push(self.m[j * w + i]);
                j = j + 1;
                proof {
                    assert forall|i2: int, j2: int|
                        0 <= i2 < i && 0 <= j2 < h implies (#[trigger] oldview[j2][i2]) == nm@[i2
                        * h + j2]@ by {
                        crate::matrix::lemma_flat_index(i2, j2, h as int, i as int);
                    }
                }
            }
            i = i + 1;
            proof {
                assert(nm@.len() == (i - 1) * h + h == i * h) by (nonlinear_arith)
                    requires
                        nm@.len() == (i - 1) * h + h,
                ;
            }
        }
        self.m = nm;
        self.width = h;
        self.height = w;
        proof {
            assert(self.m@.len() == w * h);
            assert(self.wf()) by (nonlinear_arith)
                requires
                    self.m@.len() == w * h,
                    self.width == h,
                    self.height == w,
                    forall|k: int| 0 <= k < self.m@.len() ==> (#[trigger] self.m@[k]).wf(),
            ;
            assert forall|i2: int|
                0 <= i2 < w implies self@[i2] == rgrid_transpose(oldview, w as int)[i2] by {
                assert forall|j2: int|
                    0 <= j2 < h implies self@[i2][j2] == oldview[j2][i2] by {
                    crate::matrix::lemma_flat_index(i2, j2, h as int, w as int);
                    assert(oldview[j2][i2] == self.m@[i2 * h + j2]@);
                }
                assert(self@[i2] =~= rgrid_transpose(oldview, w as int)[i2]);
            }
            assert(self@ =~= rgrid_transpose(oldview, w as int));
        }
    }
}

/// The ratio grid with rows and columns exchanged; `w` is the row length.
pub open spec fn rgrid_transpose(g: Seq<Seq<Rat>>, w: int) -> Seq<Seq<Rat>> {
    Seq::new(w as nat, |i: int| Seq::new(g.len(), |j: int| g[j][i]))
}

} // verus!
