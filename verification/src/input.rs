//! Checks on what a masking rule holds: that a masking function can be
//! trusted, that a masking value is a plain value, that a sampling clause is a
//! single clause.

use vstd::prelude::*;
use crate::catalog::{Catalog, Function, NAMESPACE_RELATION_ID, PROCEDURE_RELATION_ID};
use crate::guc::Settings;
use crate::masking::{rule_on_function, rule_on_schema};
use crate::nodes::{Expr, SelectStmt};
use crate::re::{is_match_trusted, is_match_untrusted, is_trusted, is_untrusted};
use crate::walker::{distrust_of, TreeWalker};

verus! {

/// Why a masking function is rejected.
#[derive(PartialEq, Eq, Clone, Copy, Debug, Structural)]
pub enum Reason {
    /// The function carries no label and its schema is not `TRUSTED`.
    SchemaNotTrusted,
    /// A definition of the function is `UNTRUSTED`.
    FunctionUntrusted,
    /// The function's name is written without its schema.
    FunctionUnqualified,
}

/// What the labels of a function's definitions say of it.
#[derive(PartialEq, Eq, Clone, Copy, Debug, Structural)]
pub enum TrustState {
    /// No definition is `UNTRUSTED` and one is `TRUSTED`.
    Trusted,
    /// A definition is `UNTRUSTED`, whatever the others are.
    Untrusted,
    /// No definition carries either label.
    Unknown,
}

/// Whether `f` is a definition of the function `name` of the schema
/// `namespace_id` whose label in the policy is `UNTRUSTED`.
pub open spec fn is_untrusted_definition(
    catalog: Catalog,
    f: Function,
    namespace_id: u32,
    name: Seq<char>,
    policy: Seq<char>,
) -> bool {
    &&& f.namespace_id == namespace_id
    &&& f.name@ == name
    &&& match catalog.labels.label_of(PROCEDURE_RELATION_ID, f.oid, 0, policy) {
        Some(text) => is_untrusted(text),
        None => false,
    }
}

/// Whether `f` is a definition of the function `name` of the schema
/// `namespace_id` whose label in the policy is `TRUSTED`.
pub open spec fn is_trusted_definition(
    catalog: Catalog,
    f: Function,
    namespace_id: u32,
    name: Seq<char>,
    policy: Seq<char>,
) -> bool {
    &&& f.namespace_id == namespace_id
    &&& f.name@ == name
    &&& match catalog.labels.label_of(PROCEDURE_RELATION_ID, f.oid, 0, policy) {
        Some(text) => is_trusted(text),
        None => false,
    }
}

/// Whether one of the first `n` functions of the snapshot is an `UNTRUSTED`
/// definition of the function.
pub open spec fn has_untrusted_definition(
    catalog: Catalog,
    namespace_id: u32,
    name: Seq<char>,
    policy: Seq<char>,
    n: int,
) -> bool {
    exists|i: int|
        0 <= i < n && i < catalog.functions@.len() && is_untrusted_definition(
            catalog,
            #[trigger] catalog.functions@[i],
            namespace_id,
            name,
            policy,
        )
}

/// Whether one of the first `n` functions of the snapshot is a `TRUSTED`
/// definition of the function.
pub open spec fn has_trusted_definition(
    catalog: Catalog,
    namespace_id: u32,
    name: Seq<char>,
    policy: Seq<char>,
    n: int,
) -> bool {
    exists|i: int|
        0 <= i < n && i < catalog.functions@.len() && is_trusted_definition(
            catalog,
            #[trigger] catalog.functions@[i],
            namespace_id,
            name,
            policy,
        )
}

/// The trust state of a function: untrusted where any of its definitions is
/// `UNTRUSTED`, else trusted where one is `TRUSTED`, else unknown.
pub open spec fn trust_state_of(
    catalog: Catalog,
    namespace_id: u32,
    name: Seq<char>,
    policy: Seq<char>,
) -> TrustState {
    if has_untrusted_definition(
        catalog,
        namespace_id,
        name,
        policy,
        catalog.functions@.len() as int,
    ) {
        TrustState::Untrusted
    } else if has_trusted_definition(
        catalog,
        namespace_id,
        name,
        policy,
        catalog.functions@.len() as int,
    ) {
        TrustState::Trusted
    } else {
        TrustState::Unknown
    }
}

/// Whether the schema carries `TRUSTED` in the policy.
pub open spec fn schema_is_trusted(catalog: Catalog, namespace_id: u32, policy: Seq<char>) -> bool {
    match catalog.labels.label_of(NAMESPACE_RELATION_ID, namespace_id, 0, policy) {
        Some(text) => is_trusted(text),
        None => false,
    }
}

/// Whether a function may be used in a masking rule: not where it is
/// untrusted; where it is trusted; and where nothing is known of it, only if
/// its schema is trusted.
pub open spec fn function_trust(
    catalog: Catalog,
    namespace_id: u32,
    name: Seq<char>,
    policy: Seq<char>,
) -> Result<(), Reason> {
    match trust_state_of(catalog, namespace_id, name, policy) {
        TrustState::Untrusted => Err(Reason::FunctionUntrusted),
        TrustState::Trusted => Ok(()),
        TrustState::Unknown => if schema_is_trusted(catalog, namespace_id, policy) {
            Ok(())
        } else {
            Err(Reason::SchemaNotTrusted)
        },
    }
}

/// Folds the labels of all the definitions of a function into one trust
/// state. The fold ends at the first `UNTRUSTED` definition.
pub fn classify_function(catalog: &Catalog, namespace_id: u32, func_name: &str, policy: &str) -> (r:
    TrustState)
    ensures
        r == trust_state_of(*catalog, namespace_id, func_name@, policy@),
{
    let mut trusted = false;
    let mut i: usize = 0;
    while i < catalog.functions.len()
        invariant
            i <= catalog.functions.len(),
            !has_untrusted_definition(*catalog, namespace_id, func_name@, policy@, i as int),
            trusted == has_trusted_definition(
                *catalog,
                namespace_id,
                func_name@,
                policy@,
                i as int,
            ),
        decreases catalog.functions.len() - i,
    {
        let def = &catalog.functions[i];
        // Skip the functions of other schemas and of other names.
        if def.namespace_id == namespace_id && def.name.as_str().eq(func_name) {
            // A definition without a label says nothing.
            if let Ok(seclabel) = rule_on_function(&catalog.labels, def.oid, policy) {
                if is_match_untrusted(seclabel) {
                    return TrustState::Untrusted;
                }
                if is_match_trusted(seclabel) {
                    trusted = true;
                }
            }
        }
        i += 1;
    }
    if trusted {
        TrustState::Trusted
    } else {
        TrustState::Unknown
    }
}

/// Checks that a function is trusted.
///
/// A function may have several definitions, as `foo(INT)` and `foo(TEXT)`.
/// It is trusted if none of its definitions is labeled `UNTRUSTED` and one of
/// them is labeled `TRUSTED` or its schema is.
pub fn is_trusted_function(
    catalog: &Catalog,
    namespace_id: u32,
    func_name: &str,
    policy: &str,
) -> (r: Result<(), Reason>)
    ensures
        r == function_trust(*catalog, namespace_id, func_name@, policy@),
{
    match classify_function(catalog, namespace_id, func_name, policy) {
        TrustState::Trusted => Ok(()),
        TrustState::Untrusted => Err(Reason::FunctionUntrusted),
        // Nothing is known of the function: the last chance is that the
        // schema itself is trusted.
        TrustState::Unknown => is_trusted_namespace(catalog, namespace_id, policy),
    }
}

/// Checks that a schema is trusted.
pub fn is_trusted_namespace(catalog: &Catalog, namespace_id: u32, policy: &str) -> (r: Result<
    (),
    Reason,
>)
    ensures
        r == if schema_is_trusted(*catalog, namespace_id, policy@) {
            Ok::<(), Reason>(())
        } else {
            Err::<(), Reason>(Reason::SchemaNotTrusted)
        },
{
    if let Ok(seclabel) = rule_on_schema(&catalog.labels, namespace_id, policy) {
        if is_match_trusted(seclabel) {
            return Ok(());
        }
    }
    Err(Reason::SchemaNotTrusted)
}

/// Whether `r` is the outcome `of`, the message taken by its view.
pub open spec fn is_check(r: Result<(), String>, of: Result<(), Seq<char>>) -> bool {
    match r {
        Ok(_) => of is Ok,
        Err(message) => of == Err::<(), Seq<char>>(message@),
    }
}

/// The statement that is parsed to read an expression: `SELECT`, then the
/// expression. An empty expression has none.
pub open spec fn expression_query_of(expr: Seq<char>) -> Result<Seq<char>, Seq<char>> {
    if expr.len() == 0 {
        Err("Expression is empty"@)
    } else {
        Ok("SELECT "@ + expr)
    }
}

/// Writes the statement that is to be parsed to read an expression.
pub fn expression_query(expr: &str) -> (r: Result<String, String>)
    ensures
        match r {
            Ok(query) => expression_query_of(expr@) == Ok::<Seq<char>, Seq<char>>(query@),
            Err(message) => expression_query_of(expr@) == Err::<Seq<char>, Seq<char>>(message@),
        },
{
    if expr.unicode_len() == 0 {
        return Err("Expression is empty".to_owned());
    }
    let mut query = String::from_str("SELECT ");
    query.append(expr);
    Ok(query)
}

/// The statement that is parsed to check a sampling clause: a `SELECT` from
/// some table, then the clause. An empty clause has none.
pub open spec fn tablesample_query_of(expr: Seq<char>) -> Result<Seq<char>, Seq<char>> {
    if expr.len() == 0 {
        Err("Expression is empty"@)
    } else {
        Ok("SELECT 1 FROM foo "@ + expr)
    }
}

/// Writes the statement that is to be parsed to check a sampling clause.
pub fn tablesample_query(expr: &str) -> (r: Result<String, String>)
    ensures
        match r {
            Ok(query) => tablesample_query_of(expr@) == Ok::<Seq<char>, Seq<char>>(query@),
            Err(message) => tablesample_query_of(expr@) == Err::<Seq<char>, Seq<char>>(message@),
        },
{
    if expr.unicode_len() == 0 {
        return Err("Expression is empty".to_owned());
    }
    let mut query = String::from_str("SELECT 1 FROM foo ");
    query.append(expr);
    Ok(query)
}

/// The expression that a text holds, given what the parser made of its
/// statement: `None` where the parser failed, else the statements it found.
/// The text must be one statement with one expression in its select list.
pub open spec fn parsed_expression_of(expr: Seq<char>, tree: Option<Vec<SelectStmt>>) -> Result<
    Expr,
    Seq<char>,
> {
    if expr.len() == 0 {
        Err("Expression is empty"@)
    } else {
        match tree {
            Some(statements) => if statements@.len() == 1 && statements@[0].target_list@.len()
                == 1 {
                Ok(statements@[0].target_list@[0])
            } else {
                Err(expr + " is not a valid expression"@)
            },
            None => Err(expr + " is not a valid expression"@),
        }
    }
}

/// Reads the expression that a text holds from what the parser made of the
/// statement of `expression_query`.
pub fn parse_expression<'a>(expr: &str, raw_parsetree_list: Option<&'a Vec<SelectStmt>>) -> (r:
    Result<&'a Expr, String>)
    ensures
        match r {
            Ok(node) => parsed_expression_of(
                expr@,
                match raw_parsetree_list {
                    Some(tree) => Some(*tree),
                    None => None,
                },
            ) == Ok::<Expr, Seq<char>>(*node),
            Err(message) => parsed_expression_of(
                expr@,
                match raw_parsetree_list {
                    Some(tree) => Some(*tree),
                    None => None,
                },
            ) == Err::<Expr, Seq<char>>(message@),
        },
{
    if expr.unicode_len() == 0 {
        return Err("Expression is empty".to_owned());
    }
    // Only one statement is allowed, with only one expression in its select
    // list.
    match raw_parsetree_list {
        Some(statements) => {
            if statements.len() == 1 && statements[0].target_list.len() == 1 {
                return Ok(&statements[0].target_list[0]);
            }
        },
        None => {},
    }
    let mut message = expr.to_owned();
    message.append(" is not a valid expression");
    Err(message)
}

/// Whether a sampling clause is valid, given how many statements the parser
/// found in the statement of `tablesample_query`, if it found any.
pub open spec fn tablesample_check_of(expr: Seq<char>, statements: Option<usize>) -> Result<
    (),
    Seq<char>,
> {
    if expr.len() == 0 {
        Err("Expression is empty"@)
    } else if statements == Some(1usize) {
        Ok(())
    } else {
        Err(expr + " is not a valid expression"@)
    }
}

/// Validates a sampling clause: it must parse, and as one statement.
pub fn check_tablesample(expr: &str, statements: Option<usize>) -> (r: Result<(), String>)
    ensures
        is_check(r, tablesample_check_of(expr@, statements)),
{
    if expr.unicode_len() == 0 {
        return Err("Expression is empty".to_owned());
    }
    match statements {
        Some(1) => Ok(()),
        _ => {
            let mut message = expr.to_owned();
            message.append(" is not a valid expression");
            Err(message)
        },
    }
}

/// Whether a text is a valid masking value: a constant or a column.
pub open spec fn value_check_of(expr: Seq<char>, tree: Option<Vec<SelectStmt>>) -> Result<
    (),
    Seq<char>,
> {
    match parsed_expression_of(expr, tree) {
        Err(message) => Err(message),
        Ok(val) => if val is ColumnRef || val is Const {
            Ok(())
        } else {
            Err(expr + " is not a valid expression for a masking value"@)
        },
    }
}

/// Checks that an expression is a valid masking value.
pub fn check_value(expr: &str, raw_parsetree_list: Option<&Vec<SelectStmt>>) -> (r: Result<
    (),
    String,
>)
    ensures
        is_check(
            r,
            value_check_of(
                expr@,
                match raw_parsetree_list {
                    Some(tree) => Some(*tree),
                    None => None,
                },
            ),
        ),
{
    let val = match parse_expression(expr, raw_parsetree_list) {
        Ok(val) => val,
        Err(message) => {
            return Err(message);
        },
    };
    match val {
        Expr::ColumnRef => Ok(()),
        Expr::Const => Ok(()),
        _ => {
            let mut message = expr.to_owned();
            message.append(" is not a valid expression for a masking value");
            Err(message)
        },
    }
}

/// Whether a function call may stand in a masking rule: always where the
/// settings do not restrict masking functions to trusted ones; else only if
/// the call and every call that it holds can be trusted.
pub open spec fn call_trust(
    catalog: Catalog,
    settings: Settings,
    policy: Seq<char>,
    func: Expr,
) -> Result<(), Reason> {
    if !settings.restrict_to_trusted_schemas {
        Ok(())
    } else {
        match distrust_of(catalog, policy, func) {
            None => Ok(()),
            Some(reason) => Err(reason),
        }
    }
}

/// Verifies a function call for a masking rule. The function itself and
/// every function among its arguments must be trusted: a rule such as
/// `MASKED WITH FUNCTION pg_catalog.upper(public.elevate())` would else let
/// its author run `public.elevate` with the rights of whoever reads the
/// column.
pub fn verify_function(func: &Expr, policy: &str, settings: &Settings, catalog: &Catalog) -> (r:
    Result<(), Reason>)
    ensures
        r == call_trust(*catalog, *settings, policy@, *func),
{
    if !settings.restrict_to_trusted_schemas {
        return Ok(());
    }
    let mut walker = TreeWalker::new(policy.to_owned());
    if walker.is_untrusted(func, catalog) {
        return match walker.reason {
            Some(reason) => Err(reason),
            None => Ok(()),
        };
    }
    Ok(())
}

/// What is said of a function call that is rejected.
pub open spec fn reason_text(expr: Seq<char>, reason: Reason) -> Seq<char> {
    match reason {
        Reason::SchemaNotTrusted => expr + " does not belong in a TRUSTED schema"@,
        Reason::FunctionUntrusted => expr + " is UNTRUSTED"@,
        Reason::FunctionUnqualified => expr + " is not qualified"@,
    }
}

/// Whether a text is a valid masking function, given what the parser made of
/// it: it must be one expression, a function call, and a call that may stand
/// in a masking rule.
pub open spec fn function_check_of(
    expr: Seq<char>,
    tree: Option<Vec<SelectStmt>>,
    policy: Seq<char>,
    settings: Settings,
    catalog: Catalog,
) -> Result<(), Seq<char>> {
    match parsed_expression_of(expr, tree) {
        Err(_) => Err(expr + " is not a valid function call"@),
        Ok(func) => if !(func is FuncCall) {
            Err(expr + " is not a function"@)
        } else {
            match call_trust(catalog, settings, policy, func) {
                Ok(_) => Ok(()),
                Err(reason) => Err(reason_text(expr, reason)),
            }
        },
    }
}

/// Checks that an expression is a valid masking function.
pub fn check_function(
    expr: &str,
    raw_parsetree_list: Option<&Vec<SelectStmt>>,
    policy: &str,
    settings: &Settings,
    catalog: &Catalog,
) -> (r: Result<(), String>)
    ensures
        is_check(
            r,
            function_check_of(
                expr@,
                match raw_parsetree_list {
                    Some(tree) => Some(*tree),
                    None => None,
                },
                policy@,
                *settings,
                *catalog,
            ),
        ),
{
    let func = match parse_expression(expr, raw_parsetree_list) {
        Ok(func) => func,
        Err(_) => {
            let mut message = expr.to_owned();
            message.append(" is not a valid function call");
            return Err(message);
        },
    };
    match func {
        Expr::FuncCall { .. } => {},
        _ => {
            let mut message = expr.to_owned();
            message.append(" is not a function");
            return Err(message);
        },
    }
    match verify_function(func, policy, settings, catalog) {
        Ok(_) => Ok(()),
        Err(reason) => {
            let mut message = expr.to_owned();
            match reason {
                Reason::SchemaNotTrusted => {
                    message.append(" does not belong in a TRUSTED schema");
                },
                Reason::FunctionUntrusted => {
                    message.append(" is UNTRUSTED");
                },
                Reason::FunctionUnqualified => {
                    message.append(" is not qualified");
                },
            }
            Err(message)
        },
    }
}

/// While masking functions are not restricted to trusted ones, the check of
/// a masking function asks nothing of the catalog: it gives the same verdict
/// on any two snapshots.
pub proof fn lemma_unrestricted_needs_no_catalog(
    expr: Seq<char>,
    tree: Option<Vec<SelectStmt>>,
    policy: Seq<char>,
    settings: Settings,
    one: Catalog,
    other: Catalog,
)
    requires
        !settings.restrict_to_trusted_schemas,
    ensures
        function_check_of(expr, tree, policy, settings, one) == function_check_of(
            expr,
            tree,
            policy,
            settings,
            other,
        ),
{
}

} // verus!
