//! What the graph operations take for granted of keys.
//!
//! A key type only has to offer `==` and `clone`. The operations run on any
//! such type; what they promise about adjacency lists is promised for key
//! types on which the two behave as on plain values, as they do on the
//! integer types.

use vstd::prelude::*;
use vstd::std_specs::cmp::PartialEqSpec;

verus! {

/// `==` on keys decides whether two keys are the same key.
pub open spec fn eq_is_identity<K: PartialEq>() -> bool {
    &&& K::obeys_eq_spec()
    &&& forall|a: K, b: K| #[trigger] a.eq_spec(&b) <==> a == b
}

/// A clone of a key is that key.
pub open spec fn clone_is_identity<K: Clone>() -> bool {
    forall|a: K, b: K| #[trigger] call_ensures(K::clone, (&a,), b) ==> a == b
}

/// Keys behave as plain values: `==` and `clone` are those of the value
/// itself.
pub open spec fn keys_are_values<K: PartialEq + Clone>() -> bool {
    eq_is_identity::<K>() && clone_is_identity::<K>()
}

} // verus!
