//! Walks through trees: the check of a masking function's call, and the
//! rewriting of a statement for a masked role.

use vstd::prelude::*;
use crate::catalog::{Catalog, FIRST_NORMAL_OBJECT_ID, INVALID_OID};
use crate::compat::IsCatalogRelationOid;
use crate::error::{
    insufficient_privilege, insufficient_privilege_view, internal, internal_view, AnonError,
    AnonErrorView,
};
use crate::guc::Settings;
use crate::input::{function_trust, is_trusted_function, Reason};
use crate::masking::{subquery, subquery_of};
use crate::nodes::{clone_node, node_views, Expr, Node, NodeView, QuerySource, RteKind};
use crate::utils::{get_column_numbers, is_anon_relation, is_anon_relation_oid, live_numbers};

verus! {

/// What a walk carries along: the masking policy, and the reason for which
/// the walk rejected a function call, if it did.
#[derive(Debug, PartialEq, Eq)]
pub struct TreeWalker {
    pub policy: String,
    pub reason: Option<Reason>,
}

/// Why the call of the function named `funcname` is rejected, if it is:
/// because the name is not made of a schema and a function, because the
/// schema is not known, or because the function cannot be trusted.
pub open spec fn distrust_of_call(
    catalog: Catalog,
    policy: Seq<char>,
    funcname: Seq<String>,
) -> Option<Reason> {
    if funcname.len() != 2 {
        Some(Reason::FunctionUnqualified)
    } else {
        match catalog.schema_id_of(funcname[0]@) {
            None => Some(Reason::SchemaNotTrusted),
            Some(namespace_id) => match function_trust(
                catalog,
                namespace_id,
                funcname[1]@,
                policy,
            ) {
                Ok(_) => None,
                Err(reason) => Some(reason),
            },
        }
    }
}

/// Why an expression is rejected, if it is: the reason of the first function
/// call that is rejected, where a call comes before what it holds and the
/// operands of an expression come in their order.
pub open spec fn distrust_of(catalog: Catalog, policy: Seq<char>, node: Expr) -> Option<Reason>
    decreases node, 0int,
{
    match node {
        Expr::FuncCall { funcname, args } => match distrust_of_call(catalog, policy, funcname@) {
            Some(reason) => Some(reason),
            None => distrust_among(catalog, policy, args@, 0),
        },
        Expr::Other { children } => distrust_among(catalog, policy, children@, 0),
        _ => None,
    }
}

/// Why one of `nodes` at or after position `from` is rejected, if one is: the
/// reason of the first.
pub open spec fn distrust_among(
    catalog: Catalog,
    policy: Seq<char>,
    nodes: Seq<Expr>,
    from: int,
) -> Option<Reason>
    decreases nodes, nodes.len() - from,
{
    if from < 0 || from >= nodes.len() {
        None
    } else {
        match distrust_of(catalog, policy, nodes[from]) {
            Some(reason) => Some(reason),
            None => distrust_among(catalog, policy, nodes, from + 1),
        }
    }
}

impl TreeWalker {
    /// A walk for a masking policy, with nothing rejected yet.
    pub fn new(policy: String) -> (r: Self)
        ensures
            r.policy == policy,
            r.reason is None,
    {
        TreeWalker { policy, reason: None }
    }

    /// Walks through an expression and checks that every function it calls
    /// can be trusted. Where one cannot, the walk stops there and keeps the
    /// reason.
    pub fn is_untrusted(&mut self, node: &Expr, catalog: &Catalog) -> (r: bool)
        ensures
            r == distrust_of(*catalog, old(self).policy@, *node) is Some,
            final(self).policy == old(self).policy,
            final(self).reason == if r {
                distrust_of(*catalog, old(self).policy@, *node)
            } else {
                old(self).reason
            },
    {
        is_untrusted_walker(node, self, catalog)
    }
}

/// Checks the call of one function by the name it is called by, whatever
/// the call holds.
pub fn check_call(funcname: &Vec<String>, policy: &str, catalog: &Catalog) -> (r: Option<Reason>)
    ensures
        r == distrust_of_call(*catalog, policy@, funcname@),
{
    // A function name that is not qualified cannot be trusted.
    if funcname.len() != 2 {
        return Some(Reason::FunctionUnqualified);
    }
    // The first part of a qualified name is the schema.
    let namespace_id = match catalog.schema_id(funcname[0].as_str()) {
        Some(namespace_id) => namespace_id,
        None => {
            return Some(Reason::SchemaNotTrusted);
        },
    };
    match is_trusted_function(catalog, namespace_id, funcname[1].as_str(), policy) {
        Ok(_) => None,
        Err(error) => Some(error),
    }
}

/// Walks through a raw expression and checks that all its functions are
/// trusted: a call first, then what it holds, in order. The walk stops at the
/// first call that is rejected. It does not return true without keeping the
/// reason in the context, and where it returns false the context is as it
/// was.
pub fn is_untrusted_walker(node: &Expr, context: &mut TreeWalker, catalog: &Catalog) -> (r: bool)
    ensures
        r == distrust_of(*catalog, old(context).policy@, *node) is Some,
        final(context).policy == old(context).policy,
        final(context).reason == if r {
            distrust_of(*catalog, old(context).policy@, *node)
        } else {
            old(context).reason
        },
    decreases node,
{
    let operands: &Vec<Expr> = match node {
        Expr::FuncCall { funcname, args } => {
            // The walk stops at the first function that is not trusted.
            if let Some(reason) = check_call(funcname, context.policy.as_str(), catalog) {
                context.reason = Some(reason);
                return true;
            }
            args
        },
        Expr::Other { children } => children,
        _ => {
            return false;
        },
    };
    let mut i: usize = 0;
    while i < operands.len()
        invariant
            i <= operands.len(),
            decreases_to!(*node => operands@),
            context.policy == old(context).policy,
            context.reason == old(context).reason,
            distrust_of(*catalog, old(context).policy@, *node) == distrust_among(
                *catalog,
                old(context).policy@,
                operands@,
                i as int,
            ),
        decreases operands.len() - i,
    {
        if is_untrusted_walker(&operands[i], context, catalog) {
            return true;
        }
        i += 1;
    }
    false
}

/// The range table entry that reads a masking subquery in place of a
/// relation. It names no relation any more, takes part in no permission
/// check and is not inherited, so that what masks a value is computed for
/// every row. Its subquery carries the mark of the engine and the numbers of
/// the relation's live columns.
pub open spec fn masking_entry(sql: Seq<char>, resnos: Seq<i16>) -> NodeView {
    NodeView::RangeTblEntry {
        rtekind: RteKind::Subquery,
        relid: INVALID_OID,
        relkind: 0,
        perminfoindex: 0,
        inh: false,
        children: seq![
            NodeView::Query {
                query_source: QuerySource::Parser,
                sql: Some(sql),
                resnos,
                children: Seq::empty(),
            },
        ],
    }
}

/// What stands for the relation `relid` in a masked statement: nothing new
/// for a relation of the system catalog or of the engine's own schema, and
/// for one that has no masking subquery; else the text of its masking
/// subquery and the numbers of its live columns. A relation that the
/// snapshot does not hold is an error.
pub open spec fn substitute_of(
    catalog: Catalog,
    settings: Settings,
    policy: Seq<char>,
    relid: u32,
) -> Result<Option<(Seq<char>, Seq<i16>)>, AnonErrorView> {
    if relid < FIRST_NORMAL_OBJECT_ID || is_anon_relation(catalog, relid) {
        Ok(None)
    } else {
        match catalog.relation_of(relid) {
            None => Err(internal_view("could not open relation"@)),
            Some(rel) => match subquery_of(rel, catalog, settings, policy) {
                None => Ok(None),
                Some(sql) => Ok(Some((sql, live_numbers(rel.attributes@)))),
            },
        }
    }
}

/// A node as a masked role may see it. Every range table entry that reads a
/// masked relation is replaced by its masking entry. A query that carries the
/// engine's mark is left as it is. A statement that changes data or objects
/// is refused. The first error, in the order of a walk, is the outcome.
pub open spec fn rewrite_of(
    catalog: Catalog,
    settings: Settings,
    policy: Seq<char>,
    node: NodeView,
) -> Result<NodeView, AnonErrorView>
    decreases node, 0int,
{
    match node {
        NodeView::RangeTblEntry { rtekind, relid, relkind, perminfoindex, inh, children } => {
            match substitute_of(catalog, settings, policy, relid) {
                Err(e) => Err(e),
                Ok(Some(masking)) => Ok(masking_entry(masking.0, masking.1)),
                Ok(None) => match rewrite_all(catalog, settings, policy, children, 0) {
                    Err(e) => Err(e),
                    Ok(rewritten) => Ok(
                        NodeView::RangeTblEntry {
                            rtekind,
                            relid,
                            relkind,
                            perminfoindex,
                            inh,
                            children: rewritten,
                        },
                    ),
                },
            }
        },
        NodeView::Query { query_source, sql, resnos, children } => {
            if query_source == QuerySource::Parser {
                Ok(node)
            } else {
                match rewrite_all(catalog, settings, policy, children, 0) {
                    Err(e) => Err(e),
                    Ok(rewritten) => Ok(
                        NodeView::Query { query_source, sql, resnos, children: rewritten },
                    ),
                }
            }
        },
        NodeView::Other { children } => match rewrite_all(catalog, settings, policy, children, 0) {
            Err(e) => Err(e),
            Ok(rewritten) => Ok(NodeView::Other { children: rewritten }),
        },
        _ => Err(insufficient_privilege_view("role is masked"@)),
    }
}

/// The nodes at or after position `from` as a masked role may see them, or
/// the first error among them.
pub open spec fn rewrite_all(
    catalog: Catalog,
    settings: Settings,
    policy: Seq<char>,
    nodes: Seq<NodeView>,
    from: int,
) -> Result<Seq<NodeView>, AnonErrorView>
    decreases nodes, nodes.len() - from,
{
    if from < 0 || from >= nodes.len() {
        Ok(Seq::empty())
    } else {
        match rewrite_of(catalog, settings, policy, nodes[from]) {
            Err(e) => Err(e),
            Ok(first) => match rewrite_all(catalog, settings, policy, nodes, from + 1) {
                Err(e) => Err(e),
                Ok(rest) => Ok(seq![first] + rest),
            },
        }
    }
}

/// A statement as a masked role may see it: a walk through all that its top
/// query holds. The top query itself is walked whatever its mark.
pub open spec fn rewrite_query_of(
    catalog: Catalog,
    settings: Settings,
    policy: Seq<char>,
    query: NodeView,
) -> Result<NodeView, AnonErrorView> {
    match query {
        NodeView::Query { query_source, sql, resnos, children } => match rewrite_all(
            catalog,
            settings,
            policy,
            children,
            0,
        ) {
            Err(e) => Err(e),
            Ok(rewritten) => Ok(NodeView::Query { query_source, sql, resnos, children: rewritten }),
        },
        _ => rewrite_of(catalog, settings, policy, query),
    }
}

/// Whether `r` is the outcome `of`, node and error taken by their views.
pub open spec fn is_rewrite(
    r: Result<Node, AnonError>,
    of: Result<NodeView, AnonErrorView>,
) -> bool {
    match r {
        Ok(node) => of == Ok::<NodeView, AnonErrorView>(node@),
        Err(e) => of == Err::<NodeView, AnonErrorView>(e@),
    }
}

impl TreeWalker {
    /// Rewrites a statement for a masked role: every masked relation that
    /// the statement reads is replaced by its masking subquery. The
    /// statement is rewritten as a whole or not at all.
    pub fn rewrite(&self, query: &Node, catalog: &Catalog, settings: &Settings) -> (r: Result<
        Node,
        AnonError,
    >)
        ensures
            is_rewrite(r, rewrite_query_of(*catalog, *settings, self.policy@, query@)),
    {
        match query {
            Node::Query { query_source, sql, resnos, children } => {
                let rewritten = match rewrite_nodes(children, self, catalog, settings) {
                    Ok(rewritten) => rewritten,
                    Err(e) => {
                        return Err(e);
                    },
                };
                Ok(
                    Node::Query {
                        query_source: *query_source,
                        sql: match sql {
                            Some(text) => Some(text.clone()),
                            None => None,
                        },
                        resnos: crate::nodes::clone_numbers(resnos),
                        children: rewritten,
                    },
                )
            },
            _ => rewrite_walker(query, self, catalog, settings),
        }
    }
}

/// Decides what stands for a relation in a masked statement.
fn substitute(
    catalog: &Catalog,
    settings: &Settings,
    policy: &str,
    relid: u32,
) -> (r: Result<Option<(String, Vec<i16>)>, AnonError>)
    ensures
        match r {
            Ok(Some(masking)) => substitute_of(*catalog, *settings, policy@, relid) == Ok::<
                Option<(Seq<char>, Seq<i16>)>,
                AnonErrorView,
            >(Some((masking.0@, masking.1@))),
            Ok(None) => substitute_of(*catalog, *settings, policy@, relid) == Ok::<
                Option<(Seq<char>, Seq<i16>)>,
                AnonErrorView,
            >(None),
            Err(e) => substitute_of(*catalog, *settings, policy@, relid) == Err::<
                Option<(Seq<char>, Seq<i16>)>,
                AnonErrorView,
            >(e@),
        },
{
    // We do not mask the relations of the catalog. An entry that reads no
    // relation has no identifier and stops here too.
    if IsCatalogRelationOid(relid) {
        return Ok(None);
    }
    // We do not mask the engine's own relations.
    if is_anon_relation_oid(catalog, relid) {
        return Ok(None);
    }
    let rel = match catalog.relation(relid) {
        Some(rel) => rel,
        None => {
            return Err(internal("could not open relation"));
        },
    };
    // Create the masking subquery that will replace the relation.
    let msq_sql = match subquery(rel, catalog, settings, policy) {
        Some(msq_sql) => msq_sql,
        // This table is not masked.
        None => {
            return Ok(None);
        },
    };
    // The planner finds the columns of a range table entry by their numbers
    // in the relation. A relation with a dropped column has a gap in its
    // numbers, which a subquery by itself has not: the columns of the
    // masking subquery get the numbers of the relation's columns.
    let live_attnums = get_column_numbers(rel).unwrap();
    Ok(Some((msq_sql, live_attnums)))
}

/// Walks through a list of nodes.
fn rewrite_nodes(
    nodes: &Vec<Node>,
    context: &TreeWalker,
    catalog: &Catalog,
    settings: &Settings,
) -> (r: Result<Vec<Node>, AnonError>)
    ensures
        match r {
            Ok(rewritten) => rewrite_all(
                *catalog,
                *settings,
                context.policy@,
                node_views(nodes@),
                0,
            ) == Ok::<Seq<NodeView>, AnonErrorView>(node_views(rewritten@)),
            Err(e) => rewrite_all(*catalog, *settings, context.policy@, node_views(nodes@), 0)
                == Err::<Seq<NodeView>, AnonErrorView>(e@),
        },
    decreases nodes, 1int,
{
    let ghost views = node_views(nodes@);
    let mut out: Vec<Node> = Vec::new();
    let mut k: usize = 0;
    while k < nodes.len()
        invariant
            k <= nodes.len(),
            out.len() == k,
            views == node_views(nodes@),
            forall|j: int|
                0 <= j < k ==> rewrite_of(
                    *catalog,
                    *settings,
                    context.policy@,
                    #[trigger] views[j],
                ) == Ok::<NodeView, AnonErrorView>(out@[j]@),
        decreases nodes.len() - k,
    {
        match rewrite_walker(&nodes[k], context, catalog, settings) {
            Ok(node) => {
                out.push(node);
            },
            Err(e) => {
                proof {
                    lemma_rewrite_all_fails(
                        *catalog,
                        *settings,
                        context.policy@,
                        views,
                        0,
                        k as int,
                    );
                }
                return Err(e);
            },
        }
        k += 1;
    }
    proof {
        lemma_rewrite_all_succeeds(
            *catalog,
            *settings,
            context.policy@,
            views,
            node_views(out@),
            0,
        );
        assert(node_views(out@).subrange(0, out@.len() as int) =~= node_views(out@));
    }
    Ok(out)
}

/// Walks through a statement tree and replaces each masked relation by its
/// masking subquery. A query that carries the engine's mark comes back as it
/// is, and nothing in it is visited: a walk goes no deeper than the
/// statement is nested. A statement that changes data or objects is refused.
pub fn rewrite_walker(
    node: &Node,
    context: &TreeWalker,
    catalog: &Catalog,
    settings: &Settings,
) -> (r: Result<Node, AnonError>)
    ensures
        is_rewrite(r, rewrite_of(*catalog, *settings, context.policy@, node@)),
    decreases node, 0int,
{
    match node {
        Node::RangeTblEntry { rtekind, relid, relkind, perminfoindex, inh, children } => {
            match substitute(catalog, settings, context.policy.as_str(), *relid) {
                Err(e) => Err(e),
                Ok(Some(masking)) => {
                    // The query is marked as generated by the engine, so that
                    // no later walk masks it again.
                    let msq_query = Node::Query {
                        query_source: QuerySource::Parser,
                        sql: Some(masking.0),
                        resnos: masking.1,
                        children: Vec::new(),
                    };
                    let ghost msq = msq_query@;
                    assert(msq->Query_children =~= Seq::<NodeView>::empty());
                    let mut subqueries: Vec<Node> = Vec::new();
                    subqueries.push(msq_query);
                    // Do the substitution. The entry is not inherited, so
                    // that volatile functions are run for every row.
                    let rte = Node::RangeTblEntry {
                        rtekind: RteKind::Subquery,
                        relid: INVALID_OID,
                        relkind: 0,
                        perminfoindex: 0,
                        inh: false,
                        children: subqueries,
                    };
                    assert(rte@->RangeTblEntry_children =~= seq![msq]);
                    Ok(rte)
                },
                Ok(None) => {
                    let rewritten = match rewrite_nodes(children, context, catalog, settings) {
                        Ok(rewritten) => rewritten,
                        Err(e) => {
                            return Err(e);
                        },
                    };
                    Ok(
                        Node::RangeTblEntry {
                            rtekind: *rtekind,
                            relid: *relid,
                            relkind: *relkind,
                            perminfoindex: *perminfoindex,
                            inh: *inh,
                            children: rewritten,
                        },
                    )
                },
            }
        },
        Node::Query { query_source, sql, resnos, children } => {
            // A masking subquery needs no mask on it.
            match query_source {
                QuerySource::Parser => {
                    return Ok(clone_node(node));
                },
                _ => {},
            }
            // Continue through the tree.
            let rewritten = match rewrite_nodes(children, context, catalog, settings) {
                Ok(rewritten) => rewritten,
                Err(e) => {
                    return Err(e);
                },
            };
            Ok(
                Node::Query {
                    query_source: *query_source,
                    sql: match sql {
                        Some(text) => Some(text.clone()),
                        None => None,
                    },
                    resnos: crate::nodes::clone_numbers(resnos),
                    children: rewritten,
                },
            )
        },
        Node::Other { children } => {
            let rewritten = match rewrite_nodes(children, context, catalog, settings) {
                Ok(rewritten) => rewritten,
                Err(e) => {
                    return Err(e);
                },
            };
            Ok(Node::Other { children: rewritten })
        },
        _ => Err(insufficient_privilege("role is masked".to_owned())),
    }
}

/// Where the node at position `at` fails and none before it, the walk fails
/// with that error.
proof fn lemma_rewrite_all_fails(
    catalog: Catalog,
    settings: Settings,
    policy: Seq<char>,
    nodes: Seq<NodeView>,
    from: int,
    at: int,
)
    requires
        0 <= from <= at < nodes.len(),
        rewrite_of(catalog, settings, policy, nodes[at]) is Err,
        forall|j: int|
            from <= j < at ==> rewrite_of(catalog, settings, policy, #[trigger] nodes[j]) is Ok,
    ensures
        rewrite_all(catalog, settings, policy, nodes, from) == Err::<Seq<NodeView>, AnonErrorView>(
            rewrite_of(catalog, settings, policy, nodes[at])->Err_0,
        ),
    decreases at - from,
{
    if from < at {
        lemma_rewrite_all_fails(catalog, settings, policy, nodes, from + 1, at);
    }
}

/// Where every node rewrites to the node of `out` at its position, the walk
/// gives `out`.
proof fn lemma_rewrite_all_succeeds(
    catalog: Catalog,
    settings: Settings,
    policy: Seq<char>,
    nodes: Seq<NodeView>,
    out: Seq<NodeView>,
    from: int,
)
    requires
        0 <= from <= nodes.len(),
        out.len() == nodes.len(),
        forall|j: int|
            from <= j < nodes.len() ==> rewrite_of(catalog, settings, policy, #[trigger] nodes[j])
                == Ok::<NodeView, AnonErrorView>(out[j]),
    ensures
        rewrite_all(catalog, settings, policy, nodes, from) == Ok::<Seq<NodeView>, AnonErrorView>(
            out.subrange(from, out.len() as int),
        ),
    decreases nodes.len() - from,
{
    if from < nodes.len() {
        lemma_rewrite_all_succeeds(catalog, settings, policy, nodes, out, from + 1);
        assert(seq![out[from]] + out.subrange(from + 1, out.len() as int) =~= out.subrange(
            from,
            out.len() as int,
        ));
    } else {
        assert(out.subrange(from, out.len() as int) =~= Seq::<NodeView>::empty());
    }
}

/// Whether a node reads only relations that need no mask and holds no
/// statement that changes data or objects. What lies in a query that carries
/// the engine's mark does not count.
pub open spec fn reads_only_unmasked(
    catalog: Catalog,
    settings: Settings,
    policy: Seq<char>,
    node: NodeView,
) -> bool
    decreases node, 0int,
{
    match node {
        NodeView::RangeTblEntry { relid, children, .. } => {
            &&& substitute_of(catalog, settings, policy, relid) == Ok::<
                Option<(Seq<char>, Seq<i16>)>,
                AnonErrorView,
            >(None)
            &&& all_read_only_unmasked(catalog, settings, policy, children, 0)
        },
        NodeView::Query { query_source, children, .. } => {
            query_source == QuerySource::Parser || all_read_only_unmasked(
                catalog,
                settings,
                policy,
                children,
                0,
            )
        },
        NodeView::Other { children } => all_read_only_unmasked(
            catalog,
            settings,
            policy,
            children,
            0,
        ),
        _ => false,
    }
}

/// Whether every node at or after position `from` reads only relations that
/// need no mask.
pub open spec fn all_read_only_unmasked(
    catalog: Catalog,
    settings: Settings,
    policy: Seq<char>,
    nodes: Seq<NodeView>,
    from: int,
) -> bool
    decreases nodes, nodes.len() - from,
{
    if from < 0 || from >= nodes.len() {
        true
    } else {
        reads_only_unmasked(catalog, settings, policy, nodes[from]) && all_read_only_unmasked(
            catalog,
            settings,
            policy,
            nodes,
            from + 1,
        )
    }
}

/// A tree that reads only relations that need no mask is left as it is: no
/// subquery comes into it.
pub proof fn lemma_unmasked_is_unchanged(
    catalog: Catalog,
    settings: Settings,
    policy: Seq<char>,
    node: NodeView,
)
    requires
        reads_only_unmasked(catalog, settings, policy, node),
    ensures
        rewrite_of(catalog, settings, policy, node) == Ok::<NodeView, AnonErrorView>(node),
    decreases node, 0int,
{
    match node {
        NodeView::RangeTblEntry { children, .. } => {
            lemma_all_unmasked_are_unchanged(catalog, settings, policy, children, 0);
            assert(children.subrange(0, children.len() as int) =~= children);
        },
        NodeView::Query { query_source, children, .. } => {
            if query_source != QuerySource::Parser {
                lemma_all_unmasked_are_unchanged(catalog, settings, policy, children, 0);
                assert(children.subrange(0, children.len() as int) =~= children);
            }
        },
        NodeView::Other { children } => {
            lemma_all_unmasked_are_unchanged(catalog, settings, policy, children, 0);
            assert(children.subrange(0, children.len() as int) =~= children);
        },
        _ => {},
    }
}

proof fn lemma_all_unmasked_are_unchanged(
    catalog: Catalog,
    settings: Settings,
    policy: Seq<char>,
    nodes: Seq<NodeView>,
    from: int,
)
    requires
        0 <= from <= nodes.len(),
        all_read_only_unmasked(catalog, settings, policy, nodes, from),
    ensures
        rewrite_all(catalog, settings, policy, nodes, from) == Ok::<Seq<NodeView>, AnonErrorView>(
            nodes.subrange(from, nodes.len() as int),
        ),
    decreases nodes, nodes.len() - from,
{
    if from < nodes.len() {
        lemma_unmasked_is_unchanged(catalog, settings, policy, nodes[from]);
        lemma_all_unmasked_are_unchanged(catalog, settings, policy, nodes, from + 1);
        assert(seq![nodes[from]] + nodes.subrange(from + 1, nodes.len() as int) =~= nodes.subrange(
            from,
            nodes.len() as int,
        ));
    } else {
        assert(nodes.subrange(from, nodes.len() as int) =~= Seq::<NodeView>::empty());
    }
}

/// A statement that reads only relations that need no mask is left as it
/// is.
pub proof fn lemma_unmasked_statement_is_unchanged(
    catalog: Catalog,
    settings: Settings,
    policy: Seq<char>,
    query: NodeView,
)
    requires
        query is Query,
        all_read_only_unmasked(catalog, settings, policy, query->Query_children, 0),
    ensures
        rewrite_query_of(catalog, settings, policy, query) == Ok::<NodeView, AnonErrorView>(query),
{
    let children = query->Query_children;
    lemma_all_unmasked_are_unchanged(catalog, settings, policy, children, 0);
    assert(children.subrange(0, children.len() as int) =~= children);
}

/// A second walk changes nothing: what a walk has rewritten, the next walk
/// leaves as it is.
pub proof fn lemma_rewrite_is_idempotent(
    catalog: Catalog,
    settings: Settings,
    policy: Seq<char>,
    node: NodeView,
)
    requires
        rewrite_of(catalog, settings, policy, node) is Ok,
    ensures
        rewrite_of(catalog, settings, policy, rewrite_of(catalog, settings, policy, node)->Ok_0)
            == rewrite_of(catalog, settings, policy, node),
    decreases node, 0int,
{
    let once = rewrite_of(catalog, settings, policy, node)->Ok_0;
    match node {
        NodeView::RangeTblEntry { relid, children, .. } => {
            match substitute_of(catalog, settings, policy, relid) {
                Ok(Some(masking)) => {
                    let subquery = NodeView::Query {
                        query_source: QuerySource::Parser,
                        sql: Some(masking.0),
                        resnos: masking.1,
                        children: Seq::empty(),
                    };
                    let kids = seq![subquery];
                    assert(once->RangeTblEntry_children == kids);
                    assert(rewrite_of(catalog, settings, policy, kids[0]) == Ok::<
                        NodeView,
                        AnonErrorView,
                    >(subquery));
                    assert(rewrite_all(catalog, settings, policy, kids, 1) == Ok::<
                        Seq<NodeView>,
                        AnonErrorView,
                    >(Seq::empty()));
                    assert(seq![subquery] + Seq::<NodeView>::empty() =~= kids);
                    assert(rewrite_all(catalog, settings, policy, kids, 0) == Ok::<
                        Seq<NodeView>,
                        AnonErrorView,
                    >(kids));
                },
                Ok(None) => {
                    lemma_rewrite_all_is_idempotent(catalog, settings, policy, children, 0);
                },
                Err(_) => {},
            }
        },
        NodeView::Query { query_source, children, .. } => {
            if query_source != QuerySource::Parser {
                lemma_rewrite_all_is_idempotent(catalog, settings, policy, children, 0);
            }
        },
        NodeView::Other { children } => {
            lemma_rewrite_all_is_idempotent(catalog, settings, policy, children, 0);
        },
        _ => {},
    }
}

/// A second walk through a list that was rewritten from position `from` on
/// changes nothing.
proof fn lemma_rewrite_all_is_idempotent(
    catalog: Catalog,
    settings: Settings,
    policy: Seq<char>,
    nodes: Seq<NodeView>,
    from: int,
)
    requires
        0 <= from <= nodes.len(),
        rewrite_all(catalog, settings, policy, nodes, from) is Ok,
    ensures
        rewrite_all(
            catalog,
            settings,
            policy,
            rewrite_all(catalog, settings, policy, nodes, from)->Ok_0,
            0,
        ) == rewrite_all(catalog, settings, policy, nodes, from),
        rewrite_all(catalog, settings, policy, nodes, from)->Ok_0.len() == nodes.len() - from,
    decreases nodes, nodes.len() - from,
{
    let once = rewrite_all(catalog, settings, policy, nodes, from)->Ok_0;
    if from < nodes.len() {
        let first = rewrite_of(catalog, settings, policy, nodes[from])->Ok_0;
        let rest = rewrite_all(catalog, settings, policy, nodes, from + 1)->Ok_0;
        lemma_rewrite_is_idempotent(catalog, settings, policy, nodes[from]);
        lemma_rewrite_all_is_idempotent(catalog, settings, policy, nodes, from + 1);
        assert(once == seq![first] + rest);
        lemma_rewrite_all_shifts(catalog, settings, policy, first, rest, 0);
        assert(once[0] == first);
        assert((seq![first] + rest).subrange(0, (seq![first] + rest).len() as int) =~= seq![first]
            + rest);
    } else {
        assert(once =~= Seq::<NodeView>::empty());
    }
}

/// A walk through a list from position `from + 1` on is the walk through the
/// list without its first node from position `from` on.
proof fn lemma_rewrite_all_shifts(
    catalog: Catalog,
    settings: Settings,
    policy: Seq<char>,
    first: NodeView,
    rest: Seq<NodeView>,
    from: int,
)
    requires
        0 <= from <= rest.len(),
    ensures
        rewrite_all(catalog, settings, policy, seq![first] + rest, from + 1) == rewrite_all(
            catalog,
            settings,
            policy,
            rest,
            from,
        ),
    decreases rest.len() - from,
{
    let all = seq![first] + rest;
    if from < rest.len() {
        assert(all[from + 1] == rest[from]);
        lemma_rewrite_all_shifts(catalog, settings, policy, first, rest, from + 1);
    }
}

/// A second rewrite of a statement changes nothing.
pub proof fn lemma_rewrite_query_is_idempotent(
    catalog: Catalog,
    settings: Settings,
    policy: Seq<char>,
    query: NodeView,
)
    requires
        rewrite_query_of(catalog, settings, policy, query) is Ok,
    ensures
        rewrite_query_of(
            catalog,
            settings,
            policy,
            rewrite_query_of(catalog, settings, policy, query)->Ok_0,
        ) == rewrite_query_of(catalog, settings, policy, query),
{
    match query {
        NodeView::Query { children, .. } => {
            lemma_rewrite_all_is_idempotent(catalog, settings, policy, children, 0);
        },
        NodeView::RangeTblEntry { .. } => {
            lemma_rewrite_is_idempotent(catalog, settings, policy, query);
        },
        NodeView::Other { .. } => {
            lemma_rewrite_is_idempotent(catalog, settings, policy, query);
        },
        _ => {},
    }
}

/// Sampling alone brings the subquery: the range table entry of a relation
/// that has a sampling ratio is replaced by its masking entry, whether a
/// column of the relation is masked or not. The relation must be one that
/// the engine masks at all: a user's own relation with a full name, outside
/// the engine's schema.
pub proof fn lemma_sampled_relation_is_substituted(
    catalog: Catalog,
    settings: Settings,
    policy: Seq<char>,
    entry: NodeView,
)
    requires
        entry is RangeTblEntry,
        entry->relid >= FIRST_NORMAL_OBJECT_ID,
        !is_anon_relation(catalog, entry->relid),
        catalog.relation_of(entry->relid) is Some,
        crate::utils::qualified_name_of(catalog.relation_of(entry->relid)->0) is Some,
        crate::sampling::ratio_of(catalog, entry->relid, policy) is Ok,
    ensures
        rewrite_of(catalog, settings, policy, entry) == Ok::<NodeView, AnonErrorView>(
            masking_entry(
                subquery_of(catalog.relation_of(entry->relid)->0, catalog, settings, policy)->0,
                live_numbers(catalog.relation_of(entry->relid)->0.attributes@),
            ),
        ),
        subquery_of(catalog.relation_of(entry->relid)->0, catalog, settings, policy) is Some,
{
    crate::catalog::lemma_relation_of_has_oid(catalog, entry->relid);
}

/// What a walk has rewritten reads no masked relation any more: every
/// relation that needs a mask is read through its masking subquery, and no
/// statement that changes data or objects is left.
pub proof fn lemma_rewritten_reads_only_unmasked(
    catalog: Catalog,
    settings: Settings,
    policy: Seq<char>,
    node: NodeView,
)
    requires
        rewrite_of(catalog, settings, policy, node) is Ok,
    ensures
        reads_only_unmasked(
            catalog,
            settings,
            policy,
            rewrite_of(catalog, settings, policy, node)->Ok_0,
        ),
    decreases node, 0int,
{
    match node {
        NodeView::RangeTblEntry { relid, children, .. } => {
            match substitute_of(catalog, settings, policy, relid) {
                Ok(Some(masking)) => {
                    let kids = masking_entry(masking.0, masking.1)->RangeTblEntry_children;
                    assert(reads_only_unmasked(catalog, settings, policy, kids[0]));
                    assert(all_read_only_unmasked(catalog, settings, policy, kids, 1));
                    assert(all_read_only_unmasked(catalog, settings, policy, kids, 0));
                },
                Ok(None) => {
                    lemma_all_rewritten_read_only_unmasked(catalog, settings, policy, children, 0);
                },
                Err(_) => {},
            }
        },
        NodeView::Query { query_source, children, .. } => {
            if query_source != QuerySource::Parser {
                lemma_all_rewritten_read_only_unmasked(catalog, settings, policy, children, 0);
            }
        },
        NodeView::Other { children } => {
            lemma_all_rewritten_read_only_unmasked(catalog, settings, policy, children, 0);
        },
        _ => {},
    }
}

proof fn lemma_all_rewritten_read_only_unmasked(
    catalog: Catalog,
    settings: Settings,
    policy: Seq<char>,
    nodes: Seq<NodeView>,
    from: int,
)
    requires
        0 <= from <= nodes.len(),
        rewrite_all(catalog, settings, policy, nodes, from) is Ok,
    ensures
        all_read_only_unmasked(
            catalog,
            settings,
            policy,
            rewrite_all(catalog, settings, policy, nodes, from)->Ok_0,
            0,
        ),
    decreases nodes, nodes.len() - from,
{
    let once = rewrite_all(catalog, settings, policy, nodes, from)->Ok_0;
    if from < nodes.len() {
        let first = rewrite_of(catalog, settings, policy, nodes[from])->Ok_0;
        let rest = rewrite_all(catalog, settings, policy, nodes, from + 1)->Ok_0;
        lemma_rewritten_reads_only_unmasked(catalog, settings, policy, nodes[from]);
        lemma_all_rewritten_read_only_unmasked(catalog, settings, policy, nodes, from + 1);
        assert(once == seq![first] + rest);
        assert(once[0] == first);
        lemma_unmasked_shifts(catalog, settings, policy, first, rest, 0);
    } else {
        assert(once =~= Seq::<NodeView>::empty());
    }
}

/// Whether the nodes of a list from position `from + 1` on read only
/// unmasked relations is whether those of the list without its first node do
/// from position `from` on.
proof fn lemma_unmasked_shifts(
    catalog: Catalog,
    settings: Settings,
    policy: Seq<char>,
    first: NodeView,
    rest: Seq<NodeView>,
    from: int,
)
    requires
        0 <= from <= rest.len(),
    ensures
        all_read_only_unmasked(catalog, settings, policy, seq![first] + rest, from + 1)
            == all_read_only_unmasked(catalog, settings, policy, rest, from),
    decreases rest.len() - from,
{
    let all = seq![first] + rest;
    if from < rest.len() {
        assert(all[from + 1] == rest[from]);
        lemma_unmasked_shifts(catalog, settings, policy, first, rest, from + 1);
    }
}

/// Whether `part` is the expression `whole` or lies somewhere in it.
pub open spec fn is_part_of(part: Expr, whole: Expr) -> bool
    decreases whole, 0int,
{
    part == whole || match whole {
        Expr::FuncCall { args, .. } => is_part_among(part, args@, 0),
        Expr::Other { children } => is_part_among(part, children@, 0),
        _ => false,
    }
}

/// Whether `part` is one of `nodes` at or after position `from`, or lies in
/// one.
pub open spec fn is_part_among(part: Expr, nodes: Seq<Expr>, from: int) -> bool
    decreases nodes, nodes.len() - from,
{
    if from < 0 || from >= nodes.len() {
        false
    } else {
        is_part_of(part, nodes[from]) || is_part_among(part, nodes, from + 1)
    }
}

/// An expression that is not rejected holds no call that is: every function
/// call in it, at whatever depth, is written with its schema and can be
/// trusted. A trusted function cannot smuggle in an untrusted one as its
/// argument.
pub proof fn lemma_every_call_is_trusted(
    catalog: Catalog,
    policy: Seq<char>,
    whole: Expr,
    part: Expr,
)
    requires
        distrust_of(catalog, policy, whole) is None,
        is_part_of(part, whole),
        part is FuncCall,
    ensures
        distrust_of_call(catalog, policy, part->funcname@) is None,
    decreases whole, 0int,
{
    if part != whole {
        match whole {
            Expr::FuncCall { args, .. } => {
                lemma_every_call_among_is_trusted(catalog, policy, args@, 0, part);
            },
            Expr::Other { children } => {
                lemma_every_call_among_is_trusted(catalog, policy, children@, 0, part);
            },
            _ => {},
        }
    }
}

proof fn lemma_every_call_among_is_trusted(
    catalog: Catalog,
    policy: Seq<char>,
    nodes: Seq<Expr>,
    from: int,
    part: Expr,
)
    requires
        0 <= from,
        distrust_among(catalog, policy, nodes, from) is None,
        is_part_among(part, nodes, from),
        part is FuncCall,
    ensures
        distrust_of_call(catalog, policy, part->funcname@) is None,
    decreases nodes, nodes.len() - from,
{
    if from < nodes.len() {
        if is_part_of(part, nodes[from]) {
            lemma_every_call_is_trusted(catalog, policy, nodes[from], part);
        } else {
            lemma_every_call_among_is_trusted(catalog, policy, nodes, from + 1, part);
        }
    }
}

/// An expression that holds a call that is rejected is rejected.
pub proof fn lemma_distrust_is_found(catalog: Catalog, policy: Seq<char>, whole: Expr, part: Expr)
    requires
        is_part_of(part, whole),
        part is FuncCall,
        distrust_of_call(catalog, policy, part->funcname@) is Some,
    ensures
        distrust_of(catalog, policy, whole) is Some,
{
    if distrust_of(catalog, policy, whole) is None {
        lemma_every_call_is_trusted(catalog, policy, whole, part);
    }
}

/// A query that carries the engine's mark is left as it is, whatever it
/// holds: a walk never enters what the engine has generated.
pub proof fn lemma_marked_query_is_left(
    catalog: Catalog,
    settings: Settings,
    policy: Seq<char>,
    node: NodeView,
)
    requires
        node is Query,
        node->query_source == QuerySource::Parser,
    ensures
        rewrite_of(catalog, settings, policy, node) == Ok::<NodeView, AnonErrorView>(node),
{
}

} // verus!
