use vstd::prelude::*;

use crate::scalar::Scalar;

verus! {

/// A one-dimensional numeric sequence with an orientation flag.
///
/// `transposed == false` means a row vector, `transposed == true` a column
/// vector. The orientation governs which products are defined; it never
/// changes the storage.
#[derive(Debug, Clone, PartialEq)]
pub struct Vertex<T: Scalar> {
    pub v: Vec<T>,
    pub transposed: bool,
}

impl<T: Scalar> View for Vertex<T> {
    type V = Seq<int>;

    /// The mathematical contents: the sequence of element values.
    open spec fn view(&self) -> Seq<int> {
        self.v@.map(|i: int, x: T| x.sval())
    }
}

impl<T: Scalar> Vertex<T> {
    /// Builds a row vector holding the given elements.
    pub fn new(v: &[T]) -> (r: Vertex<T>)
        ensures
            r@ == v@.map(|i: int, x: T| x.sval()),
            !r.transposed,
    {
        Vertex { v: vstd::slice::slice_to_vec(v), transposed: false }
    }

    /// The number of elements.
    pub fn len(&self) -> (r: usize)
        ensures
            r == self@.len(),
    {
        self.v.len()
    }

    /// Whether the vertex has no elements.
    pub fn is_empty(&self) -> (r: bool)
        ensures
            r <==> self@.len() == 0,
    {
        self.v.len() == 0
    }

    /// Whether the vertex is in column orientation.
    pub fn is_transposed(&self) -> (r: bool)
        ensures
            r == self.transposed,
    {
        self.transposed
    }

    /// Transposes the vertex in place: the orientation flips, the contents
    /// stay put. Applying it twice restores the original value.
    pub fn t(&mut self)
        ensures
            final(self)@ == old(self)@,
            final(self).transposed == !old(self).transposed,
    {
        self.transposed = !self.transposed;
    }

    /// The element at the given position.
    pub fn get(&self, i: usize) -> (r: T)
        requires
            i < self@.len(),
        ensures
            r.sval() == self@[i as int],
    {
        self.v[i]
    }
}

} // verus!
