//! The random-source collaborator: uniform sampling of rules and seed rows.

use vstd::prelude::*;

verus! {

/// Relies on rand::random::<bool>: each call draws one independent uniform
/// random boolean. Nothing is promised of the values, only the row's length.
#[verifier::external_body]
pub(crate) fn random_row(width: usize) -> (r: Vec<bool>)
    ensures
        r@.len() == width,
{
    (0..width).map(|_| rand::random::<bool>()).collect()
}

/// Relies on rand::random::<u8>: draws one uniform random 8-bit rule.
/// Nothing can be promised of the value.
#[verifier::external_body]
pub(crate) fn random_rule() -> u8 {
    rand::random::<u8>()
}

} // verus!
