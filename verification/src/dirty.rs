//! The dirty-index sets of the settling loop, kept in `tinyset`'s
//! compact `SetUsize` behind trusted wrappers. The contents of a set are
//! named by `dirty_elems`; every wrapper's contract is stated over that
//! name.

use vstd::prelude::*;

verus! {

#[verifier::external_type_specification]
#[verifier::external_body]
pub struct ExSetUsize(tinyset::SetUsize);

/// The set of elements a `tinyset::SetUsize` holds.
pub uninterp spec fn dirty_elems(s: tinyset::SetUsize) -> Set<int>;

/// Relies on tinyset::SetUsize::new: a fresh set holds nothing.
#[verifier::external_body]
pub(crate) fn set_new() -> (r: tinyset::SetUsize)
    ensures
        dirty_elems(r) == Set::<int>::empty(),
{
    tinyset::SetUsize::new()
}

/// Relies on tinyset::SetUsize::insert: afterwards the set holds the
/// element and everything it held before.
#[verifier::external_body]
pub(crate) fn set_insert(s: &mut tinyset::SetUsize, elem: usize)
    ensures
        dirty_elems(*final(s)) == dirty_elems(*old(s)).insert(elem as int),
{
    s.insert(elem);
}

/// Relies on tinyset::SetUsize::contains: membership in the held
/// elements.
#[verifier::external_body]
pub(crate) fn set_contains(s: &tinyset::SetUsize, elem: usize) -> (r: bool)
    ensures
        r == dirty_elems(*s).contains(elem as int),
{
    s.contains(elem)
}

/// Relies on tinyset::SetUsize::len: the number of held elements, which
/// is zero exactly for the empty set.
#[verifier::external_body]
pub(crate) fn set_len(s: &tinyset::SetUsize) -> (r: usize)
    ensures
        r as int == dirty_elems(*s).len(),
        (r == 0) <==> dirty_elems(*s) == Set::<int>::empty(),
{
    s.len()
}

} // verus!
