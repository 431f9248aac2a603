//! The sampling ratio of a table: its own `TABLESAMPLE` rule, else the one of
//! the database.

use vstd::prelude::*;
use crate::catalog::{Catalog, LabelStore, DATABASE_RELATION_ID, RELATION_RELATION_ID};
use crate::masking::{is_rule, rule_of, rule_on_database, rule_on_table, Reason};
use crate::re::{capture_tablesample, tablesample_of};

verus! {

/// The sampling method that the label of an object declares. An object
/// whose rule cannot be had has none, for the reason of that; a label that is
/// no `TABLESAMPLE` rule is `InvalidInput`.
pub open spec fn declared_ratio(
    labels: LabelStore,
    class_id: u32,
    object_id: u32,
    policy: Seq<char>,
) -> Result<Seq<char>, Reason> {
    match rule_of(labels, class_id, object_id, 0, policy) {
        Ok(text) => match tablesample_of(text) {
            Some(method) => Ok(method),
            None => Err(Reason::InvalidInput),
        },
        Err(reason) => Err(reason),
    }
}

/// The sampling method of a table: the one that the table declares, else the
/// outcome for the database.
pub open spec fn ratio_of(catalog: Catalog, relid: u32, policy: Seq<char>) -> Result<
    Seq<char>,
    Reason,
> {
    match declared_ratio(catalog.labels, RELATION_RELATION_ID, relid, policy) {
        Ok(method) => Ok(method),
        Err(_) => declared_ratio(catalog.labels, DATABASE_RELATION_ID, catalog.database_id, policy),
    }
}

/// Resolves the sampling method of a table, falling back to the one of the
/// database.
pub fn get_ratio<'a>(catalog: &'a Catalog, relid: u32, policy: &str) -> (r: Result<&'a str, Reason>)
    ensures
        is_rule(r, ratio_of(*catalog, relid, policy@)),
{
    match get_table_ratio(&catalog.labels, relid, policy) {
        Ok(ratio) => Ok(ratio),
        Err(_) => get_current_database_ratio(catalog, policy),
    }
}

/// Resolves the sampling method that the database declares.
pub fn get_current_database_ratio<'a>(catalog: &'a Catalog, policy: &str) -> (r: Result<
    &'a str,
    Reason,
>)
    ensures
        is_rule(
            r,
            declared_ratio(catalog.labels, DATABASE_RELATION_ID, catalog.database_id, policy@),
        ),
{
    let seclabel = match rule_on_database(&catalog.labels, catalog.database_id, policy) {
        Ok(seclabel) => seclabel,
        Err(e) => {
            return Err(e);
        },
    };
    match capture_tablesample(seclabel) {
        Some(ratio) => Ok(ratio),
        None => Err(Reason::InvalidInput),
    }
}

/// Resolves the sampling method that a table declares.
pub fn get_table_ratio<'a>(labels: &'a LabelStore, relid: u32, policy: &str) -> (r: Result<
    &'a str,
    Reason,
>)
    ensures
        is_rule(r, declared_ratio(*labels, RELATION_RELATION_ID, relid, policy@)),
{
    let seclabel = match rule_on_table(labels, relid, policy) {
        Ok(seclabel) => seclabel,
        Err(e) => {
            return Err(e);
        },
    };
    match capture_tablesample(seclabel) {
        Some(ratio) => Ok(ratio),
        None => Err(Reason::InvalidInput),
    }
}

} // verus!
