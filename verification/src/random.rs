use vstd::prelude::*;

use crate::matrix::Matrix;
use crate::matrix::lemma_flat_index;
use crate::scalar::Scalar;
use crate::vertex::Vertex;

verus! {

/// A random element of the kind, resampled until it is nonzero: for
/// signed kinds this rejects zero magnitude, for unsigned kinds it keeps
/// only strictly positive values. After a long run of zero draws the
/// kind's one stands in, so the result is always nonzero.
pub fn sample_nonzero<T: Scalar>() -> (r: T)
    ensures
        r.sval() != 0,
{
    let mut tries: usize = 0;
    while tries < 64
        invariant
            0 <= tries <= 64,
        decreases 64 - tries,
    {
        let x = T::sample();
        if !x.is_zero() {
            return x;
        }
        tries = tries + 1;
    }
    T::one()
}

/// Construction of vectors and matrices filled with random nonzero
/// elements of the kind.
pub trait Random {
    type Output;

    type Size;

    /// What the fill asks of the requested size: that it fits the
    /// address space.
    spec fn rand_req(size: Self::Size) -> bool;

    /// Everything the random fill promises of its result.
    spec fn rand_post(size: Self::Size, r: Self::Output) -> bool;

    /// Everything the transposed random fill promises of its result.
    spec fn rand_transposed_post(size: Self::Size, r: Self::Output) -> bool;

    /// A value of the given size filled with random nonzero elements.
    fn rand_new(size: Self::Size) -> (r: Self::Output)
        requires
            Self::rand_req(size),
        ensures
            Self::rand_post(size, r),
    ;

    /// As `rand`, with the shape transposed.
    fn rand_transposed(size: Self::Size) -> (r: Self::Output)
        requires
            Self::rand_req(size),
        ensures
            Self::rand_transposed_post(size, r),
    ;
}

/// Fills a vector with `len` random nonzero elements.
fn random_fill<T: Scalar>(len: usize) -> (r: Vec<T>)
    ensures
        r@.len() == len,
        forall|k: int| 0 <= k < len ==> (#[trigger] r@[k]).sval() != 0,
{
    let mut v: Vec<T> = Vec::new();
    let mut k: usize = 0;
    while k < len
        invariant
            0 <= k <= len,
            v@.len() == k,
            forall|k2: int| 0 <= k2 < k ==> (#[trigger] v@[k2]).sval() != 0,
        decreases len - k,
    {
        v.push(sample_nonzero::<T>());
        k = k + 1;
    }
    v
}

impl<T: Scalar> Random for Vertex<T> {
    type Output = Vertex<T>;

    type Size = usize;

    /// Any length fits.
    open spec fn rand_req(size: usize) -> bool {
        true
    }

    /// A row vertex of the given length whose elements are all nonzero.
    open spec fn rand_post(size: usize, r: Vertex<T>) -> bool {
        &&& r@.len() == size
        &&& !r.transposed
        &&& forall|k: int| 0 <= k < size ==> #[trigger] r@[k] != 0
    }

    /// A column vertex of the given length whose elements are all nonzero.
    open spec fn rand_transposed_post(size: usize, r: Vertex<T>) -> bool {
        &&& r@.len() == size
        &&& r.transposed
        &&& forall|k: int| 0 <= k < size ==> #[trigger] r@[k] != 0
    }

    fn rand_new(size: usize) -> (r: Vertex<T>) {
        Vertex { v: random_fill::<T>(size), transposed: false }
    }

    fn rand_transposed(size: usize) -> (r: Vertex<T>) {
        Vertex { v: random_fill::<T>(size), transposed: true }
    }
}

impl<T: Scalar> Random for Matrix<T> {
    type Output = Matrix<T>;

    type Size = [usize; 2];

    /// The storage for the shape must fit the address space.
    open spec fn rand_req(size: [usize; 2]) -> bool {
        size@[0] * size@[1] <= usize::MAX
    }

    /// A matrix of the given `[width, height]` whose entries are all
    /// nonzero.
    open spec fn rand_post(size: [usize; 2], r: Matrix<T>) -> bool {
        &&& r.wf()
        &&& r.width == size@[0]
        &&& r.height == size@[1]
        &&& forall|j: int, i: int|
            0 <= j < r.height && 0 <= i < r.width ==> #[trigger] r@[j][i] != 0
    }

    /// As `rand_post`, with width and height exchanged.
    open spec fn rand_transposed_post(size: [usize; 2], r: Matrix<T>) -> bool {
        &&& r.wf()
        &&& r.width == size@[1]
        &&& r.height == size@[0]
        &&& forall|j: int, i: int|
            0 <= j < r.height && 0 <= i < r.width ==> #[trigger] r@[j][i] != 0
    }

    fn rand_new(size: [usize; 2]) -> (r: Matrix<T>) {
        let w = size[0];
        let h = size[1];
        let m = random_fill::<T>(w * h);
        let res = Matrix { m, width: w, height: h };
        proof {
            assert forall|j: int, i: int|
                0 <= j < res.height && 0 <= i < res.width implies #[trigger] res@[j][i] != 0 by {
                lemma_flat_index(j, i, res.width as int, res.height as int);
            }
        }
        res
    }

    fn rand_transposed(size: [usize; 2]) -> (r: Matrix<T>) {
        let w = size[1];
        let h = size[0];
        proof {
            assert(size@[1] * size@[0] == size@[0] * size@[1]) by (nonlinear_arith);
        }
        let m = random_fill::<T>(w * h);
        let res = Matrix { m, width: w, height: h };
        proof {
            assert forall|j: int, i: int|
                0 <= j < res.height && 0 <= i < res.width implies #[trigger] res@[j][i] != 0 by {
                lemma_flat_index(j, i, res.width as int, res.height as int);
            }
        }
        res
    }
}

} // verus!
