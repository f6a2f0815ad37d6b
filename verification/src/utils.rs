//! Defaults for optional fields of deserialized records.

use vstd::prelude::*;

verus! {

/// The default of a flag that is on unless the file turns it off.
pub fn default_true() -> (r: bool)
    ensures
        r == true,
{
    true
}

/// The default of a list field that may be absent.
pub fn default_empty<T>() -> (r: Vec<T>)
    ensures
        r@ == Seq::<T>::empty(),
{
    Vec::new()
}

} // verus!
