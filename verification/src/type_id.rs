//! `std::any::TypeId`, which names the Rust type of a registered config.

use std::any::TypeId;

use vstd::prelude::*;

verus! {

/// `std::any::TypeId`, held as an opaque value.
#[verifier::external_type_specification]
#[verifier::external_body]
pub struct ExTypeId(TypeId);

/// Calls `==` on two `TypeId`s. std documents a `TypeId` as the globally
/// unique identifier of a type, compared by `==`; the contract claims that
/// `==` is true exactly when the two values are the same identifier.
#[verifier::external_body]
pub(crate) fn same_type(a: &TypeId, b: &TypeId) -> (same: bool)
    ensures
        same == (*a == *b),
{
    *a == *b
}

} // verus!
