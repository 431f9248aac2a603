//! The trees that the engine works on: raw expressions as the parser hands
//! them out, and analysed statements with their range tables.

use vstd::prelude::*;

verus! {

/// A raw expression.
#[derive(Debug, PartialEq, Eq)]
pub enum Expr {
    /// A function call: the parts of the function's name as they were
    /// written, then what the call holds (its arguments, its filter, its
    /// ordering) in the order in which a walk visits them.
    FuncCall { funcname: Vec<String>, args: Vec<Expr> },
    /// A reference to a column.
    ColumnRef,
    /// A constant.
    Const,
    /// Any other expression, with its operands in the order in which a walk
    /// visits them.
    Other { children: Vec<Expr> },
}

/// A parsed `SELECT` statement, as far as the engine reads it.
#[derive(Debug, PartialEq, Eq)]
pub struct SelectStmt {
    /// The expressions of the select list.
    pub target_list: Vec<Expr>,
}

/// Where a query comes from.
#[derive(PartialEq, Eq, Clone, Copy, Debug, Structural)]
pub enum QuerySource {
    /// The query is as the user wrote it.
    Original,
    /// The mark of a masking subquery: the engine generated the query and
    /// never rewrites it.
    Parser,
    InsteadRule,
    QualInsteadRule,
    NonInsteadRule,
}

/// What a range table entry stands for.
#[derive(PartialEq, Eq, Clone, Copy, Debug, Structural)]
pub enum RteKind {
    Relation,
    Subquery,
    Join,
    Function,
    TableFunc,
    Values,
    Cte,
    NamedTuplestore,
    Result,
}

/// A node of an analysed statement.
#[derive(Debug, PartialEq, Eq)]
pub enum Node {
    /// A range table entry: what a statement reads from. For a relation,
    /// `relid` is its identifier; for anything else it names no object.
    /// `children` holds what a walk visits behind the entry itself: the
    /// subquery of a subquery entry, the sampling clause of a relation, the
    /// expressions of a function or a values list.
    RangeTblEntry {
        rtekind: RteKind,
        relid: u32,
        relkind: u8,
        perminfoindex: u32,
        inh: bool,
        children: Vec<Node>,
    },
    /// A query. `children` holds what a walk visits in it, in order: its
    /// expressions first, its range table entries last. A masking subquery
    /// carries the SQL text it is made from and the numbers of its output
    /// columns, and has no children.
    Query { query_source: QuerySource, sql: Option<String>, resnos: Vec<i16>, children: Vec<Node> },
    InsertStmt,
    DeleteStmt,
    UpdateStmt,
    TruncateStmt,
    CreateStmt,
    DropStmt,
    SecLabelStmt,
    /// Any other node, with what a walk visits in it.
    Other { children: Vec<Node> },
}

/// A node with its texts and lists as sequences.
pub enum NodeView {
    RangeTblEntry {
        rtekind: RteKind,
        relid: u32,
        relkind: u8,
        perminfoindex: u32,
        inh: bool,
        children: Seq<NodeView>,
    },
    Query {
        query_source: QuerySource,
        sql: Option<Seq<char>>,
        resnos: Seq<i16>,
        children: Seq<NodeView>,
    },
    InsertStmt,
    DeleteStmt,
    UpdateStmt,
    TruncateStmt,
    CreateStmt,
    DropStmt,
    SecLabelStmt,
    Other { children: Seq<NodeView> },
}

/// The views of the nodes of a list.
pub open spec fn node_views(nodes: Seq<Node>) -> Seq<NodeView>
    decreases nodes, 1int,
{
    Seq::new(
        nodes.len(),
        |i: int|
            if 0 <= i < nodes.len() {
                node_view(nodes[i])
            } else {
                NodeView::InsertStmt
            },
    )
}

/// The view of a node.
pub open spec fn node_view(node: Node) -> NodeView
    decreases node, 0int,
{
    match node {
        Node::RangeTblEntry { rtekind, relid, relkind, perminfoindex, inh, children } => {
            NodeView::RangeTblEntry {
                rtekind,
                relid,
                relkind,
                perminfoindex,
                inh,
                children: node_views(children@),
            }
        },
        Node::Query { query_source, sql, resnos, children } => NodeView::Query {
            query_source,
            sql: match sql {
                Some(text) => Some(text@),
                None => None,
            },
            resnos: resnos@,
            children: node_views(children@),
        },
        Node::InsertStmt => NodeView::InsertStmt,
        Node::DeleteStmt => NodeView::DeleteStmt,
        Node::UpdateStmt => NodeView::UpdateStmt,
        Node::TruncateStmt => NodeView::TruncateStmt,
        Node::CreateStmt => NodeView::CreateStmt,
        Node::DropStmt => NodeView::DropStmt,
        Node::SecLabelStmt => NodeView::SecLabelStmt,
        Node::Other { children } => NodeView::Other { children: node_views(children@) },
    }
}

impl View for Node {
    type V = NodeView;

    open spec fn view(&self) -> NodeView {
        node_view(*self)
    }
}

/// Copies a list of numbers.
pub fn clone_numbers(numbers: &Vec<i16>) -> (r: Vec<i16>)
    ensures
        r@ == numbers@,
{
    let mut r: Vec<i16> = Vec::new();
    let mut i: usize = 0;
    while i < numbers.len()
        invariant
            i <= numbers.len(),
            r@ == numbers@.subrange(0, i as int),
        decreases numbers.len() - i,
    {
        r.push(numbers[i]);
        i += 1;
    }
    r
}

/// Copies a list of nodes.
pub fn clone_nodes(nodes: &Vec<Node>) -> (r: Vec<Node>)
    ensures
        node_views(r@) == node_views(nodes@),
    decreases nodes, 1int,
{
    let mut r: Vec<Node> = Vec::new();
    let mut i: usize = 0;
    while i < nodes.len()
        invariant
            i <= nodes.len(),
            r.len() == i,
            forall|j: int| 0 <= j < i ==> (#[trigger] r@[j])@ == nodes@[j]@,
        decreases nodes.len() - i,
    {
        let copy = clone_node(&nodes[i]);
        r.push(copy);
        i += 1;
    }
    r
}

/// Copies a node with all that it holds.
pub fn clone_node(node: &Node) -> (r: Node)
    ensures
        r@ == node@,
    decreases node, 0int,
{
    match node {
        Node::RangeTblEntry { rtekind, relid, relkind, perminfoindex, inh, children } => {
            Node::RangeTblEntry {
                rtekind: *rtekind,
                relid: *relid,
                relkind: *relkind,
                perminfoindex: *perminfoindex,
                inh: *inh,
                children: clone_nodes(children),
            }
        },
        Node::Query { query_source, sql, resnos, children } => Node::Query {
            query_source: *query_source,
            sql: match sql {
                Some(text) => Some(text.clone()),
                None => None,
            },
            resnos: clone_numbers(resnos),
            children: clone_nodes(children),
        },
        Node::InsertStmt => Node::InsertStmt,
        Node::DeleteStmt => Node::DeleteStmt,
        Node::UpdateStmt => Node::UpdateStmt,
        Node::TruncateStmt => Node::TruncateStmt,
        Node::CreateStmt => Node::CreateStmt,
        Node::DropStmt => Node::DropStmt,
        Node::SecLabelStmt => Node::SecLabelStmt,
        Node::Other { children } => Node::Other { children: clone_nodes(children) },
    }
}

} // verus!
