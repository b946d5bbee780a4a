//! `dashmap::DashMap`, the sharded hash map that holds the per-symbol state
//! of the services. Verus sees values of this type as opaque; each service
//! names what its own map holds and states the map's methods over that name.

use vstd::prelude::*;

verus! {

/// Declares `dashmap::DashMap` with the parameters of the struct itself: key,
/// value and hasher. Nothing is said of what a map holds.
#[verifier::external_type_specification]
#[verifier::external_body]
#[verifier::reject_recursive_types(K)]
#[verifier::reject_recursive_types(V)]
#[verifier::reject_recursive_types(S)]
pub struct ExDashMap<K, V, S>(dashmap::DashMap<K, V, S>);

} // verus!
