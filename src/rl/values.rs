use vstd::prelude::*;

use ndarray::Array1;

verus! {

/// The storage of a value function: a one-dimensional `ndarray` array of scaled values.
#[verifier::external_body]
pub struct ValueArray {
    values: Array1<i64>,
}

/// The elements of the array, in index order.
pub uninterp spec fn array_values(a: ValueArray) -> Seq<i64>;

impl ValueArray {
    /// Relies on `ndarray::Array1::from_vec`: a one-dimensional array of the vector's elements,
    /// in order.
    #[verifier::external_body]
    pub(crate) fn from_vec(v: Vec<i64>) -> (r: ValueArray)
        ensures
            array_values(r) == v@,
    {
        ValueArray { values: Array1::from_vec(v) }
    }

    /// Relies on `ndarray::ArrayBase::len`: the number of elements.
    #[verifier::external_body]
    pub(crate) fn len(&self) -> (r: usize)
        ensures
            r == array_values(*self).len(),
    {
        self.values.len()
    }

    /// Relies on indexing a one-dimensional `ndarray` array: the element at index `i`.
    #[verifier::external_body]
    pub(crate) fn get(&self, i: usize) -> (r: i64)
        requires
            i < array_values(*self).len(),
        ensures
            r == array_values(*self)[i as int],
    {
        self.values[i]
    }
}

} // verus!
