//! A small helper over vectors shared by the stateful modules.

use vstd::prelude::*;

verus! {

/// Mutable access to one element of a vector, with the rest untouched.
pub(crate) fn at_mut<A>(v: &mut Vec<A>, i: usize) -> (r: &mut A)
    requires
        i < old(v).len(),
    ensures
        *r == old(v)@[i as int],
        final(v)@ == old(v)@.update(i as int, *final(r)),
{
    &mut v[i]
}

} // verus!
