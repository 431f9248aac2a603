//! Small helpers on the catalog snapshot.

use vstd::prelude::*;
use crate::catalog::{Attribute, Catalog, Relation, INVALID_OID};
use crate::error::{
    function_call_is_empty, function_is_not_valid, function_is_not_valid_view, AnonError,
    AnonErrorView, ErrorCode,
};
use crate::nodes::Expr;
use crate::ANON;
use crate::macros::OidIsValid;

verus! {

/// The full name of a relation as it is written in SQL: the schema's name,
/// a dot, the relation's name. A relation whose identifier names no object, or
/// whose schema is not known, has none.
pub open spec fn qualified_name_of(rel: Relation) -> Option<Seq<char>> {
    if rel.oid == INVALID_OID {
        None
    } else {
        match rel.quoted_namespace {
            Some(namespace) => Some(namespace@ + "."@ + rel.quoted_name@),
            None => None,
        }
    }
}

/// Returns the full name of a relation.
pub fn qualified_name(rel: &Relation) -> (r: Option<String>)
    ensures
        match r {
            Some(name) => qualified_name_of(*rel) == Some(name@),
            None => qualified_name_of(*rel) is None,
        },
{
    if !OidIsValid(rel.oid) {
        return None;
    }
    match &rel.quoted_namespace {
        Some(namespace) => {
            let mut name = namespace.clone();
            name.append(".");
            name.append(rel.quoted_name.as_str());
            Some(name)
        },
        None => None,
    }
}

/// The number of the last live column named `name` among `attributes`.
pub open spec fn column_number_of(attributes: Seq<Attribute>, name: Seq<char>) -> Option<i16>
    decreases attributes.len(),
{
    if attributes.len() == 0 {
        None
    } else if !attributes.last().dropped && attributes.last().name@ == name {
        Some(attributes.last().attnum)
    } else {
        column_number_of(attributes.drop_last(), name)
    }
}

/// Returns the number of a column in its relation, counted from 1. A dropped
/// column has none.
pub fn get_column_number(rel: &Relation, attname: &str) -> (r: Option<i16>)
    ensures
        r == column_number_of(rel.attributes@, attname@),
{
    let mut result: Option<i16> = None;
    let mut i: usize = 0;
    while i < rel.attributes.len()
        invariant
            i <= rel.attributes.len(),
            result == column_number_of(rel.attributes@.subrange(0, i as int), attname@),
        decreases rel.attributes.len() - i,
    {
        let a = &rel.attributes[i];
        assert(rel.attributes@.subrange(0, i + 1).drop_last() == rel.attributes@.subrange(
            0,
            i as int,
        ));
        if !a.dropped && a.name.as_str().eq(attname) {
            result = Some(a.attnum);
        }
        i += 1;
    }
    assert(rel.attributes@.subrange(0, i as int) == rel.attributes@);
    result
}

/// The numbers of the live columns among `attributes`, in order.
pub open spec fn live_numbers(attributes: Seq<Attribute>) -> Seq<i16>
    decreases attributes.len(),
{
    if attributes.len() == 0 {
        Seq::empty()
    } else if attributes.last().dropped {
        live_numbers(attributes.drop_last())
    } else {
        live_numbers(attributes.drop_last()).push(attributes.last().attnum)
    }
}

/// Returns the numbers of all the live columns of a relation. Where a column
/// was dropped the numbers have a gap.
pub fn get_column_numbers(rel: &Relation) -> (r: Option<Vec<i16>>)
    ensures
        r is Some,
        r->0@ == live_numbers(rel.attributes@),
{
    let mut result: Vec<i16> = Vec::new();
    let mut i: usize = 0;
    while i < rel.attributes.len()
        invariant
            i <= rel.attributes.len(),
            result@ == live_numbers(rel.attributes@.subrange(0, i as int)),
        decreases rel.attributes.len() - i,
    {
        let a = &rel.attributes[i];
        assert(rel.attributes@.subrange(0, i + 1).drop_last() == rel.attributes@.subrange(
            0,
            i as int,
        ));
        if !a.dropped {
            result.push(a.attnum);
        }
        i += 1;
    }
    assert(rel.attributes@.subrange(0, i as int) == rel.attributes@);
    Some(result)
}

/// The schema of a function call: the first part of its name where the name
/// is made of a schema and a function, and nothing for any other name.
pub open spec fn function_schema_of(funcname: Seq<String>) -> Seq<char> {
    if funcname.len() == 2 {
        funcname[0]@
    } else {
        Seq::empty()
    }
}

/// Given a function call such as `anon.fake_city()` and what the parser made
/// of it, returns the schema of the function as it is written: `anon`. Whether
/// the schema exists is not looked at. A call without a schema gives an empty
/// name. An empty text, and a text that is no function call, are errors.
pub fn get_function_schema(function_call: &str, parsed: Option<&Expr>) -> (r: Result<
    String,
    AnonError,
>)
    ensures
        match r {
            Ok(schema) => function_call@.len() > 0 && match parsed {
                Some(Expr::FuncCall { funcname, .. }) => schema@ == function_schema_of(funcname@),
                _ => false,
            },
            Err(e) => if function_call@.len() == 0 {
                e@ == (AnonErrorView {
                    error_code: ErrorCode::NoData,
                    message: "function call is empty"@,
                    detail: None,
                })
            } else {
                !(parsed matches Some(Expr::FuncCall { .. })) && e@ == function_is_not_valid_view(
                    function_call@,
                )
            },
        },
{
    if function_call.unicode_len() == 0 {
        return Err(function_call_is_empty());
    }
    match parsed {
        Some(Expr::FuncCall { funcname, args }) => {
            if funcname.len() == 2 {
                // The name is qualified: its first part is the schema.
                return Ok(funcname[0].clone());
            }
            Ok(String::new())
        },
        _ => Err(function_is_not_valid(function_call)),
    }
}

/// Returns the full name of the relation with identifier `relid`.
pub fn get_relation_qualified_name(catalog: &Catalog, relid: u32) -> (r: Option<String>)
    ensures
        match r {
            Some(name) => catalog.relation_of(relid) is Some && qualified_name_of(
                catalog.relation_of(relid)->0,
            ) == Some(name@),
            None => catalog.relation_of(relid) is None || qualified_name_of(
                catalog.relation_of(relid)->0,
            ) is None,
        },
{
    match catalog.relation(relid) {
        Some(rel) => qualified_name(rel),
        None => None,
    }
}

/// Whether the relation with identifier `relid` lies in the engine's own
/// schema.
pub open spec fn is_anon_relation(catalog: Catalog, relid: u32) -> bool {
    match (catalog.schema_id_of(ANON@), catalog.relation_of(relid)) {
        (Some(namespace_id), Some(rel)) => rel.namespace_id == namespace_id,
        _ => false,
    }
}

/// Checks whether a relation belongs to the engine's own schema.
pub fn is_anon_relation_oid(catalog: &Catalog, relid: u32) -> (r: bool)
    ensures
        r == is_anon_relation(*catalog, relid),
{
    match catalog.schema_id(ANON) {
        Some(namespace_id) => match catalog.relation(relid) {
            Some(rel) => rel.namespace_id == namespace_id,
            None => false,
        },
        None => false,
    }
}

} // verus!
