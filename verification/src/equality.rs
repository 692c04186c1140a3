//! The meaning of `==` on a value type, as the standard library's
//! `PartialEq` specification gives it.
use vstd::prelude::*;
use vstd::std_specs::cmp::PartialEqSpec;

verus! {

/// `V`'s `==` follows its specification.
pub open spec fn obeys_eq<V: PartialEq>() -> bool {
    V::obeys_eq_spec()
}

/// `a == b` by `V`'s specification of `==`.
pub open spec fn equal_by_eq<V: PartialEq>(a: V, b: V) -> bool {
    a.eq_spec(&b)
}

} // verus!
