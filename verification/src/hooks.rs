//! What the engine does to a statement on its way to execution, for a role
//! that is masked.

use vstd::prelude::*;
use crate::catalog::Catalog;
use crate::error::{insufficient_privilege, insufficient_privilege_view, AnonError, AnonErrorView};
use crate::guc::Settings;
use crate::masking::{get_masking_policy, masking_policy_of};
use crate::nodes::{clone_node, Node};
use crate::text::{join, joined, views};
use crate::utils::{qualified_name, qualified_name_of};
use crate::walker::{is_rewrite, rewrite_query_of, TreeWalker};

verus! {

/// A utility statement, as far as the engine reads it.
#[derive(Debug, PartialEq, Eq)]
pub enum UtilityStmt {
    /// `EXPLAIN`.
    Explain,
    /// `TRUNCATE`.
    Truncate,
    /// `COPY`. `relation` is the identifier of the relation that is copied,
    /// where the statement names one, and `attlist` the columns that it
    /// names. `query` is the text of the query that the engine has put in the
    /// place of the relation.
    Copy { is_from: bool, relation: Option<u32>, attlist: Vec<String>, query: Option<String> },
    /// Any other utility statement.
    Other,
}

/// A utility statement with its texts as sequences of characters.
pub enum UtilityStmtView {
    Explain,
    Truncate,
    Copy {
        is_from: bool,
        relation: Option<u32>,
        attlist: Seq<Seq<char>>,
        query: Option<Seq<char>>,
    },
    Other,
}

impl View for UtilityStmt {
    type V = UtilityStmtView;

    open spec fn view(&self) -> UtilityStmtView {
        match self {
            UtilityStmt::Explain => UtilityStmtView::Explain,
            UtilityStmt::Truncate => UtilityStmtView::Truncate,
            UtilityStmt::Copy { is_from, relation, attlist, query } => UtilityStmtView::Copy {
                is_from: *is_from,
                relation: *relation,
                attlist: views(attlist@),
                query: match query {
                    Some(text) => Some(text@),
                    None => None,
                },
            },
            UtilityStmt::Other => UtilityStmtView::Other,
        }
    }
}

/// The query that reads what a `COPY` of a relation writes: the named
/// columns, or all of them where none is named, from the relation.
pub open spec fn copy_query_text(attlist: Seq<Seq<char>>, table: Seq<char>) -> Seq<char> {
    "SELECT "@ + (if attlist.len() == 0 {
        "*"@
    } else {
        joined(attlist, ","@)
    }) + " FROM "@ + table
}

/// A utility statement as a masked role may run it. `EXPLAIN` and `TRUNCATE`
/// are refused. A `COPY` of a relation to somewhere becomes a `COPY` of the
/// query that reads the relation, which is masked in its turn when it is
/// analysed. Any other statement stays as it is, and so does a `COPY` whose
/// relation has no full name.
pub open spec fn rewrite_utility_of(catalog: Catalog, stmt: UtilityStmtView) -> Result<
    UtilityStmtView,
    AnonErrorView,
> {
    match stmt {
        UtilityStmtView::Explain => Err(insufficient_privilege_view("role is masked"@)),
        UtilityStmtView::Truncate => Err(insufficient_privilege_view("role is masked"@)),
        UtilityStmtView::Copy { is_from, relation, attlist, query } => {
            if !is_from && relation is Some && catalog.relation_of(relation->0) is Some
                && qualified_name_of(catalog.relation_of(relation->0)->0) is Some {
                Ok(
                    UtilityStmtView::Copy {
                        is_from,
                        relation: None,
                        attlist: Seq::empty(),
                        query: Some(
                            copy_query_text(
                                attlist,
                                qualified_name_of(catalog.relation_of(relation->0)->0)->0,
                            ),
                        ),
                    },
                )
            } else {
                Ok(stmt)
            }
        },
        UtilityStmtView::Other => Ok(stmt),
    }
}

/// Whether `r` is the outcome `of`, statement and error taken by their views.
pub open spec fn is_utility(
    r: Result<UtilityStmt, AnonError>,
    of: Result<UtilityStmtView, AnonErrorView>,
) -> bool {
    match r {
        Ok(stmt) => of == Ok::<UtilityStmtView, AnonErrorView>(stmt@),
        Err(e) => of == Err::<UtilityStmtView, AnonErrorView>(e@),
    }
}

/// Copies a list of texts.
fn clone_texts(texts: &Vec<String>) -> (r: Vec<String>)
    ensures
        views(r@) == views(texts@),
{
    let mut r: Vec<String> = Vec::new();
    let mut i: usize = 0;
    while i < texts.len()
        invariant
            i <= texts.len(),
            r.len() == i,
            forall|j: int| 0 <= j < i ==> (#[trigger] r@[j])@ == texts@[j]@,
        decreases texts.len() - i,
    {
        r.push(texts[i].clone());
        i += 1;
    }
    r
}

/// Copies a utility statement.
fn clone_utility(stmt: &UtilityStmt) -> (r: UtilityStmt)
    ensures
        r@ == stmt@,
{
    match stmt {
        UtilityStmt::Explain => UtilityStmt::Explain,
        UtilityStmt::Truncate => UtilityStmt::Truncate,
        UtilityStmt::Copy { is_from, relation, attlist, query } => UtilityStmt::Copy {
            is_from: *is_from,
            relation: *relation,
            attlist: clone_texts(attlist),
            query: match query {
                Some(text) => Some(text.clone()),
                None => None,
            },
        },
        UtilityStmt::Other => UtilityStmt::Other,
    }
}

/// Applies the masking rules to a utility statement. In a `COPY` statement
/// the masked relation is replaced by a query on it: `COPY person TO stdout`
/// becomes `COPY (SELECT * FROM public.person) TO stdout`. When that query is
/// analysed, it is rewritten as any query of a masked role is.
pub fn pa_rewrite_utility(stmt: &UtilityStmt, catalog: &Catalog) -> (r: Result<
    UtilityStmt,
    AnonError,
>)
    ensures
        is_utility(r, rewrite_utility_of(*catalog, stmt@)),
{
    match stmt {
        UtilityStmt::Explain => Err(insufficient_privilege("role is masked".to_owned())),
        UtilityStmt::Truncate => Err(insufficient_privilege("role is masked".to_owned())),
        UtilityStmt::Copy { is_from, relation, attlist, query } => {
            // `COPY FROM` statements are left alone.
            if *is_from {
                return Ok(clone_utility(stmt));
            }
            // A `COPY (SELECT ...) TO` statement names no relation: its
            // query is masked when it is analysed.
            let relid = match relation {
                Some(relid) => *relid,
                None => {
                    return Ok(clone_utility(stmt));
                },
            };
            let relname = match catalog.relation(relid) {
                Some(rel) => match qualified_name(rel) {
                    Some(relname) => relname,
                    None => {
                        return Ok(clone_utility(stmt));
                    },
                },
                None => {
                    return Ok(clone_utility(stmt));
                },
            };
            let mut msq_sql = String::from_str("SELECT ");
            if attlist.len() == 0 {
                msq_sql.append("*");
            } else {
                msq_sql.append(join(attlist, ",").as_str());
            }
            msq_sql.append(" FROM ");
            msq_sql.append(relname.as_str());
            // Replace the relation by the query.
            let rewritten = UtilityStmt::Copy {
                is_from: false,
                relation: None,
                attlist: Vec::new(),
                query: Some(msq_sql),
            };
            assert(rewritten@->Copy_attlist =~= Seq::<Seq<char>>::empty());
            Ok(rewritten)
        },
        UtilityStmt::Other => Ok(UtilityStmt::Other),
    }
}

/// Whether statements are masked at all: inside a transaction, while dynamic
/// masking is on. Outside a transaction nothing can be read of the catalog.
pub open spec fn masks_dynamically_of(settings: Settings, in_transaction: bool) -> bool {
    in_transaction && settings.transparent_dynamic_masking
}

/// The policy under which the statements of a role are masked: none outside
/// a transaction and none while dynamic masking is off, else the policy in
/// which the role is masked.
pub open spec fn dynamic_policy_of(
    catalog: Catalog,
    settings: Settings,
    in_transaction: bool,
    roleid: u32,
) -> Option<Seq<char>> {
    if masks_dynamically_of(settings, in_transaction) {
        masking_policy_of(catalog.labels, settings, roleid)
    } else {
        None
    }
}

/// Tells whether statements are masked at all, and so whether the labels of
/// the role at hand have to be read.
pub fn masks_dynamically(settings: &Settings, in_transaction: bool) -> (r: bool)
    ensures
        r == masks_dynamically_of(*settings, in_transaction),
{
    in_transaction && settings.transparent_dynamic_masking
}

/// Returns the policy under which the statements of a role are masked, if
/// they are.
pub fn dynamic_policy(
    catalog: &Catalog,
    settings: &Settings,
    in_transaction: bool,
    roleid: u32,
) -> (r: Option<String>)
    ensures
        match r {
            Some(policy) => dynamic_policy_of(*catalog, *settings, in_transaction, roleid) == Some(
                policy@,
            ),
            None => dynamic_policy_of(*catalog, *settings, in_transaction, roleid) is None,
        },
{
    if masks_dynamically(settings, in_transaction) {
        get_masking_policy(&catalog.labels, settings, roleid)
    } else {
        None
    }
}

/// The engine's part in the handling of a statement.
pub struct AnonHooks {}

impl AnonHooks {
    /// Called for each utility statement, which is anything but `SELECT`,
    /// `INSERT`, `UPDATE` and `DELETE`. For a role that is masked, the
    /// statement is rewritten; for any other it stays as it is.
    pub fn process_utility_hook(
        &self,
        pstmt: &UtilityStmt,
        in_transaction: bool,
        roleid: u32,
        catalog: &Catalog,
        settings: &Settings,
    ) -> (r: Result<UtilityStmt, AnonError>)
        ensures
            is_utility(
                r,
                if dynamic_policy_of(*catalog, *settings, in_transaction, roleid) is Some {
                    rewrite_utility_of(*catalog, pstmt@)
                } else {
                    Ok(pstmt@)
                },
            ),
    {
        // Rewrite the statement when dynamic masking is on and the role is
        // masked.
        if dynamic_policy(catalog, settings, in_transaction, roleid).is_some() {
            return pa_rewrite_utility(pstmt, catalog);
        }
        Ok(clone_utility(pstmt))
    }

    /// Called when a query has been analysed. When a masked role sends a
    /// query, the query is masked under the policy of the role; for any other
    /// role it stays as it is.
    pub fn post_parse_analyze(
        &self,
        query: &Node,
        in_transaction: bool,
        roleid: u32,
        catalog: &Catalog,
        settings: &Settings,
    ) -> (r: Result<Node, AnonError>)
        ensures
            is_rewrite(
                r,
                match dynamic_policy_of(*catalog, *settings, in_transaction, roleid) {
                    Some(policy) => rewrite_query_of(*catalog, *settings, policy, query@),
                    None => Ok(query@),
                },
            ),
    {
        if let Some(masking_policy) = dynamic_policy(catalog, settings, in_transaction, roleid) {
            return TreeWalker::new(masking_policy).rewrite(query, catalog, settings);
        }
        Ok(clone_node(query))
    }
}

} // verus!
