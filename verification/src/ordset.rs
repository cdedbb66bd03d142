//! The ordered set of the `imbl` crate, with the contract its source shows
//! for the methods used here.
use vstd::prelude::*;
use imbl::OrdSet;

verus! {

/// An ordered set of `u32` of the `imbl` crate. Verus refuses to declare
/// `imbl::GenericOrdSet` itself (its pointer-kind parameter is bound by a
/// trait of the `archery` crate), so the set lives in this opaque holder.
#[verifier::external_body]
pub struct IndexSet {
    set: OrdSet<u32>,
}

/// The values held by an ordered set.
pub uninterp spec fn ordset_contents(s: IndexSet) -> Set<u32>;

/// How many values of `s` are below `x`: the position of `x` when the set
/// is walked from lowest to highest.
pub open spec fn count_below(s: Set<u32>, x: u32) -> nat {
    s.filter(|y: u32| y < x).len()
}

/// `OrdSet::new`: the empty set.
#[verifier::external_body]
pub(crate) fn ordset_new() -> (s: IndexSet)
    ensures
        ordset_contents(s) == Set::<u32>::empty(),
{
    IndexSet { set: OrdSet::new() }
}

/// `OrdSet::insert`: adds a value; gives back the equal value that was
/// already there, if any.
#[verifier::external_body]
pub(crate) fn ordset_insert(s: &mut IndexSet, a: u32) -> (r: Option<u32>)
    ensures
        ordset_contents(*final(s)) == ordset_contents(*old(s)).insert(a),
        r == (if ordset_contents(*old(s)).contains(a) {
            Some(a)
        } else {
            None
        }),
{
    s.set.insert(a)
}

/// `OrdSet::clear`: removes every value; it does not panic.
#[verifier::external_body]
pub(crate) fn ordset_clear(s: &mut IndexSet)
    ensures
        ordset_contents(*final(s)) == Set::<u32>::empty(),
    no_unwind
{
    s.set.clear()
}

/// `OrdSet::len`: the number of values.
#[verifier::external_body]
pub(crate) fn ordset_len(s: &IndexSet) -> (n: usize)
    ensures
        n == ordset_contents(*s).len(),
{
    s.set.len()
}

/// `OrdSet::iter` followed by `nth`: the set is walked from lowest to
/// highest, so the `k`-th value is the one with `k` values below it.
#[verifier::external_body]
pub(crate) fn ordset_nth(s: &IndexSet, k: usize) -> (r: Option<u32>)
    ensures
        k < ordset_contents(*s).len() ==> r is Some && ordset_contents(*s).contains(r->0)
            && count_below(ordset_contents(*s), r->0) == k,
        k >= ordset_contents(*s).len() ==> r is None,
{
    s.set.iter().nth(k).copied()
}

} // verus!
