//! Tests on object identifiers.

use vstd::prelude::*;
use crate::catalog::INVALID_OID;

verus! {

/// Whether an identifier names an object.
#[allow(non_snake_case)]
pub fn OidIsValid(objectId: u32) -> (r: bool)
    ensures
        r == (objectId != INVALID_OID),
{
    objectId != INVALID_OID
}

} // verus!
