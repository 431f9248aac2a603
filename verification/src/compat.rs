//! What differs between versions of the database.

use vstd::prelude::*;
use crate::catalog::FIRST_NORMAL_OBJECT_ID;

verus! {

/// Whether a relation belongs to the system catalog: its identifier lies
/// below the first one that a user's own object can get.
#[allow(non_snake_case)]
pub fn IsCatalogRelationOid(relid: u32) -> (r: bool)
    ensures
        r == (relid < FIRST_NORMAL_OBJECT_ID),
{
    relid < FIRST_NORMAL_OBJECT_ID
}

} // verus!
