//! The persistent vector of the `im-rc` crate, with the contract its source
//! shows for the methods used here.
use vstd::prelude::*;
use im_rc::Vector;

verus! {

#[verifier::external_type_specification]
#[verifier::external_body]
#[verifier::reject_recursive_types(A)]
pub struct ExVector<A>(im_rc::Vector<A>);

/// The values held by a vector, front to back.
pub uninterp spec fn vector_contents(v: Vector<u32>) -> Seq<u32>;

/// `Vector::new`: the empty vector.
#[verifier::external_body]
pub(crate) fn vector_new() -> (v: Vector<u32>)
    ensures
        vector_contents(v) == Seq::<u32>::empty(),
{
    Vector::new()
}

/// `Vector::push_back`: appends a value at the back.
#[verifier::external_body]
pub(crate) fn vector_push_back(v: &mut Vector<u32>, a: u32)
    ensures
        vector_contents(*final(v)) == vector_contents(*old(v)).push(a),
{
    v.push_back(a)
}

/// `Vector::len`: the number of values.
#[verifier::external_body]
pub(crate) fn vector_len(v: &Vector<u32>) -> (n: usize)
    ensures
        n == vector_contents(*v).len(),
{
    v.len()
}

/// `Vector::get`: the value at an index, or `None` past the end.
#[verifier::external_body]
pub(crate) fn vector_get(v: &Vector<u32>, index: usize) -> (r: Option<u32>)
    ensures
        index < vector_contents(*v).len() ==> r == Some(vector_contents(*v)[index as int]),
        index >= vector_contents(*v).len() ==> r is None,
{
    v.get(index).copied()
}

/// `Vector::remove`: takes out the value at an index, shifting those after
/// it to the front; it panics on an index past the end.
#[verifier::external_body]
pub(crate) fn vector_remove(v: &mut Vector<u32>, index: usize) -> (r: u32)
    requires
        index < vector_contents(*old(v)).len(),
    ensures
        r == vector_contents(*old(v))[index as int],
        vector_contents(*final(v)) == vector_contents(*old(v)).remove(index as int),
{
    v.remove(index)
}

} // verus!
