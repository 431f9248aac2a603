//! The masking policies' names and the check of a label when it is set.
//!
//! A label is checked against the grammar of its object's kind before it is
//! stored, so that the engine reads only labels that are well formed.

use vstd::prelude::*;
use crate::catalog::{
    Catalog, AUTH_ID_RELATION_ID, DATABASE_RELATION_ID, NAMESPACE_RELATION_ID,
    PROCEDURE_RELATION_ID, RELATION_RELATION_ID,
};
use crate::error::{
    feature_not_supported, feature_not_supported_view, insufficient_privilege,
    insufficient_privilege_view, invalid_label_for, invalid_label_view, AnonError, AnonErrorView,
};
use crate::guc::Settings;
use crate::input::{
    check_function, check_tablesample, check_value, function_check_of, tablesample_check_of,
    value_check_of,
};
use crate::nodes::SelectStmt;
use crate::re::{
    capture_function, capture_tablesample, capture_value, function_of, is_indirect_identifier,
    is_masked, is_match_indirect_identifier, is_match_masked, is_match_not_masked,
    is_match_trusted, is_match_untrusted, is_not_masked, is_trusted, is_untrusted, tablesample_of,
    value_of,
};

verus! {

/// The name of the default masking policy. It always exists and cannot be
/// renamed or removed.
pub const ANON_DEFAULT_MASKING_POLICY: &'static str = "anon";

/// Whether `r` is the outcome `of`, the error taken by its view.
pub open spec fn is_relabel(r: Result<(), AnonError>, of: Result<(), AnonErrorView>) -> bool {
    match r {
        Ok(_) => of is Ok,
        Err(e) => of == Err::<(), AnonErrorView>(e@),
    }
}

/// What the parser made of the texts that a label holds, as far as the label
/// holds them: of the statement that reads the masking value or function of
/// a column's label, and of the statement that checks the sampling clause of
/// a table's or a database's label.
#[derive(Debug, PartialEq, Eq)]
pub struct ParsedLabel {
    /// The statements found in `expression_query` of the label's value or
    /// function, or `None` where the parser failed.
    pub expression: Option<Vec<SelectStmt>>,
    /// The number of statements found in `tablesample_query` of the label, or
    /// `None` where the parser failed.
    pub sampling: Option<usize>,
}

/// What has to be parsed before a label can be checked.
#[derive(Debug, PartialEq, Eq)]
pub enum Fragment<'a> {
    /// Nothing: the label is decided on by its text alone.
    Nothing,
    /// The masking value of a column's label, as an expression.
    Value(&'a str),
    /// The masking function of a column's label, as an expression. To decide
    /// on it, the engine needs the schemas and functions that it calls.
    Function(&'a str),
    /// The label of a table or a database that holds a sampling clause, as
    /// the end of a statement.
    Sampling(&'a str),
}

/// What has to be parsed, with its text as a sequence of characters.
pub enum FragmentView {
    Nothing,
    Value(Seq<char>),
    Function(Seq<char>),
    Sampling(Seq<char>),
}

impl View for Fragment<'_> {
    type V = FragmentView;

    open spec fn view(&self) -> FragmentView {
        match self {
            Fragment::Nothing => FragmentView::Nothing,
            Fragment::Value(text) => FragmentView::Value(text@),
            Fragment::Function(text) => FragmentView::Function(text@),
            Fragment::Sampling(text) => FragmentView::Sampling(text@),
        }
    }
}

/// What has to be parsed before the label of an object can be checked: for a
/// column, its masking value, or else its masking function; for a table or
/// a database, the whole label where it holds a sampling clause; nothing for
/// any other object, and nothing where the label is taken away.
pub open spec fn fragment_of(class_id: u32, sub_id: i32, label: Option<Seq<char>>) -> FragmentView {
    match label {
        None => FragmentView::Nothing,
        Some(text) => if class_id == RELATION_RELATION_ID && sub_id != 0 {
            if value_of(text) is Some {
                FragmentView::Value(value_of(text)->0)
            } else if function_of(text) is Some {
                FragmentView::Function(function_of(text)->0)
            } else {
                FragmentView::Nothing
            }
        } else if (class_id == RELATION_RELATION_ID || class_id == DATABASE_RELATION_ID)
            && tablesample_of(text) is Some {
            FragmentView::Sampling(text)
        } else {
            FragmentView::Nothing
        },
    }
}

/// Tells what has to be parsed before the label of an object can be checked.
/// The outcome for a value or a function goes to `ParsedLabel::expression`,
/// the one for a sampling clause to `ParsedLabel::sampling`.
pub fn label_fragment<'a>(class_id: u32, sub_id: i32, seclabel: Option<&'a str>) -> (r: Fragment<
    'a,
>)
    ensures
        r@ == fragment_of(
            class_id,
            sub_id,
            match seclabel {
                Some(text) => Some(text@),
                None => None,
            },
        ),
{
    let label = match seclabel {
        Some(label) => label,
        None => {
            return Fragment::Nothing;
        },
    };
    if class_id == RELATION_RELATION_ID && sub_id != 0 {
        if let Some(val) = capture_value(label) {
            return Fragment::Value(val);
        }
        if let Some(func) = capture_function(label) {
            return Fragment::Function(func);
        }
        return Fragment::Nothing;
    }
    if (class_id == RELATION_RELATION_ID || class_id == DATABASE_RELATION_ID)
        && capture_tablesample(label).is_some() {
        return Fragment::Sampling(label);
    }
    Fragment::Nothing
}

/// Whether a label is valid for a column: a masking value that is a plain
/// value, a masking function that is trusted in the default policy, or
/// `NOT MASKED`.
pub open spec fn column_relabel_of(
    label: Seq<char>,
    parsed: ParsedLabel,
    settings: Settings,
    catalog: Catalog,
) -> Result<(), AnonErrorView> {
    if value_of(label) is Some {
        match value_check_of(value_of(label)->0, parsed.expression) {
            Ok(_) => Ok(()),
            Err(hint) => Err(invalid_label_view("a column"@, label, Some(hint))),
        }
    } else if function_of(label) is Some {
        match function_check_of(
            function_of(label)->0,
            parsed.expression,
            ANON_DEFAULT_MASKING_POLICY@,
            settings,
            catalog,
        ) {
            Ok(_) => Ok(()),
            Err(hint) => Err(invalid_label_view("a column"@, label, Some(hint))),
        }
    } else if is_not_masked(label) {
        Ok(())
    } else {
        Err(invalid_label_view("a column"@, label, None))
    }
}

/// Checks the label of a column.
///
/// The name of the policy that a label is set for is not known when the
/// label is checked. A masking function is therefore checked against the
/// default policy: a function that is declared as trusted is trusted for all
/// policies.
pub fn relabel_column(
    label: &str,
    parsed: &ParsedLabel,
    settings: &Settings,
    catalog: &Catalog,
) -> (r: Result<(), AnonError>)
    ensures
        is_relabel(r, column_relabel_of(label@, *parsed, *settings, *catalog)),
{
    let tree: Option<&Vec<SelectStmt>> = match &parsed.expression {
        Some(statements) => Some(statements),
        None => None,
    };
    if let Some(val) = capture_value(label) {
        return match check_value(val, tree) {
            Ok(_) => Ok(()),
            Err(hint) => Err(invalid_label_for("a column", label, Some(hint))),
        };
    }
    if let Some(func) = capture_function(label) {
        return match check_function(func, tree, ANON_DEFAULT_MASKING_POLICY, settings, catalog) {
            Ok(_) => Ok(()),
            Err(hint) => Err(invalid_label_for("a column", label, Some(hint))),
        };
    }
    if is_match_not_masked(label) {
        return Ok(());
    }
    Err(invalid_label_for("a column", label, None))
}

/// Whether a label is a valid sampling rule for an object of the kind
/// `an_object`: a `TABLESAMPLE` rule whose clause parses as one statement.
pub open spec fn sampling_relabel_of(
    an_object: Seq<char>,
    label: Seq<char>,
    parsed: ParsedLabel,
) -> Result<(), AnonErrorView> {
    if tablesample_of(label) is Some {
        match tablesample_check_of(label, parsed.sampling) {
            Ok(_) => Ok(()),
            Err(detail) => Err(invalid_label_view(an_object, label, Some(detail))),
        }
    } else {
        Err(invalid_label_view(an_object, label, None))
    }
}

fn relabel_sampling(an_object: &str, label: &str, parsed: &ParsedLabel) -> (r: Result<
    (),
    AnonError,
>)
    ensures
        is_relabel(r, sampling_relabel_of(an_object@, label@, *parsed)),
{
    let mut detail: Option<String> = None;
    if capture_tablesample(label).is_some() {
        match check_tablesample(label, parsed.sampling) {
            Ok(_) => {
                return Ok(());
            },
            Err(message) => {
                detail = Some(message);
            },
        }
    }
    Err(invalid_label_for(an_object, label, detail))
}

/// Checks the label of a database: a sampling rule.
pub fn relabel_database(label: &str, parsed: &ParsedLabel) -> (r: Result<(), AnonError>)
    ensures
        is_relabel(r, sampling_relabel_of("a database"@, label@, *parsed)),
{
    relabel_sampling("a database", label, parsed)
}

/// Checks the label of a table: a sampling rule.
pub fn relabel_table(label: &str, parsed: &ParsedLabel) -> (r: Result<(), AnonError>)
    ensures
        is_relabel(r, sampling_relabel_of("a table"@, label@, *parsed)),
{
    relabel_sampling("a table", label, parsed)
}

/// Whether a label may be set on a function: by a superuser only, and it
/// must be `TRUSTED` or `UNTRUSTED`.
pub open spec fn function_relabel_of(label: Seq<char>, superuser: bool) -> Result<
    (),
    AnonErrorView,
> {
    if !superuser {
        Err(
            insufficient_privilege_view(
                "only a superuser can set an anon label for a function"@,
            ),
        )
    } else if is_trusted(label) || is_untrusted(label) {
        Ok(())
    } else {
        Err(invalid_label_view("a function"@, label, None))
    }
}

/// Checks the label of a function.
pub fn relabel_function(label: &str, superuser: bool) -> (r: Result<(), AnonError>)
    ensures
        is_relabel(r, function_relabel_of(label@, superuser)),
{
    if !superuser {
        return Err(
            insufficient_privilege(
                "only a superuser can set an anon label for a function".to_owned(),
            ),
        );
    }
    if is_match_trusted(label) || is_match_untrusted(label) {
        return Ok(());
    }
    Err(invalid_label_for("a function", label, None))
}

/// Whether a label is valid for a role: `MASKED`.
pub open spec fn role_relabel_of(label: Seq<char>) -> Result<(), AnonErrorView> {
    if is_masked(label) {
        Ok(())
    } else {
        Err(invalid_label_view("a role"@, label, None))
    }
}

/// Checks the label of a role.
pub fn relabel_role(label: &str) -> (r: Result<(), AnonError>)
    ensures
        is_relabel(r, role_relabel_of(label@)),
{
    if is_match_masked(label) {
        return Ok(());
    }
    Err(invalid_label_for("a role", label, None))
}

/// Whether a label may be set on a schema: by a superuser only, and it must
/// be `TRUSTED`.
pub open spec fn schema_relabel_of(label: Seq<char>, superuser: bool) -> Result<(), AnonErrorView> {
    if !superuser {
        Err(insufficient_privilege_view("only a superuser can set an anon label for a schema"@))
    } else if is_trusted(label) {
        Ok(())
    } else {
        Err(invalid_label_view("a schema"@, label, None))
    }
}

/// Checks the label of a schema.
pub fn relabel_schema(label: &str, superuser: bool) -> (r: Result<(), AnonError>)
    ensures
        is_relabel(r, schema_relabel_of(label@, superuser)),
{
    if !superuser {
        return Err(
            insufficient_privilege(
                "only a superuser can set an anon label for a schema".to_owned(),
            ),
        );
    }
    if is_match_trusted(label) {
        return Ok(());
    }
    Err(invalid_label_for("a schema", label, None))
}

/// Whether a masking rule may be set on an object. A label that is taken
/// away is always accepted. Else the label must be valid for the kind of the
/// object: a function, a database, a table (no sub-identifier), a column, a
/// role or a schema. No other kind of object can carry a masking rule.
pub open spec fn masking_relabel_of(
    class_id: u32,
    sub_id: i32,
    label: Option<Seq<char>>,
    superuser: bool,
    parsed: ParsedLabel,
    settings: Settings,
    catalog: Catalog,
) -> Result<(), AnonErrorView> {
    match label {
        None => Ok(()),
        Some(text) => if class_id == PROCEDURE_RELATION_ID {
            function_relabel_of(text, superuser)
        } else if class_id == DATABASE_RELATION_ID {
            sampling_relabel_of("a database"@, text, parsed)
        } else if class_id == RELATION_RELATION_ID {
            if sub_id == 0 {
                sampling_relabel_of("a table"@, text, parsed)
            } else {
                column_relabel_of(text, parsed, settings, catalog)
            }
        } else if class_id == AUTH_ID_RELATION_ID {
            role_relabel_of(text)
        } else if class_id == NAMESPACE_RELATION_ID {
            schema_relabel_of(text, superuser)
        } else {
            Err(feature_not_supported_view("Labeling this object"@))
        },
    }
}

/// Checks the syntax of a masking rule. It is called whenever a security
/// label is declared for a masking policy. The label is fine or the
/// declaration is refused.
pub fn masking_policy_object_relabel(
    class_id: u32,
    sub_id: i32,
    seclabel: Option<&str>,
    superuser: bool,
    parsed: &ParsedLabel,
    settings: &Settings,
    catalog: &Catalog,
) -> (r: Result<(), AnonError>)
    ensures
        is_relabel(
            r,
            masking_relabel_of(
                class_id,
                sub_id,
                match seclabel {
                    Some(text) => Some(text@),
                    None => None,
                },
                superuser,
                *parsed,
                *settings,
                *catalog,
            ),
        ),
{
    // A label that is set to nothing is taken away.
    let label = match seclabel {
        Some(label) => label,
        None => {
            return Ok(());
        },
    };
    if class_id == PROCEDURE_RELATION_ID {
        relabel_function(label, superuser)
    } else if class_id == DATABASE_RELATION_ID {
        relabel_database(label, parsed)
    } else if class_id == RELATION_RELATION_ID {
        // This class holds tables and columns: without a sub-identifier the
        // object is a table.
        if sub_id == 0 {
            relabel_table(label, parsed)
        } else {
            relabel_column(label, parsed, settings, catalog)
        }
    } else if class_id == AUTH_ID_RELATION_ID {
        relabel_role(label)
    } else if class_id == NAMESPACE_RELATION_ID {
        relabel_schema(label, superuser)
    } else {
        // Any other label is refused.
        Err(feature_not_supported("Labeling this object"))
    }
}

/// Whether a k-anonymity label may be set on an object: on a column or a
/// table only, and it must declare an indirect identifier. A label that is
/// taken away is always accepted.
pub open spec fn k_anonymity_relabel_of(class_id: u32, label: Option<Seq<char>>) -> Result<
    (),
    AnonErrorView,
> {
    match label {
        None => Ok(()),
        Some(text) => if class_id == RELATION_RELATION_ID {
            if is_indirect_identifier(text) {
                Ok(())
            } else {
                Err(invalid_label_view("a column"@, text, None))
            }
        } else {
            Err(feature_not_supported_view("Placing a k_anonymity label on this object"@))
        },
    }
}

/// Checks the syntax of a k-anonymity rule.
pub fn k_anonymity_object_relabel(class_id: u32, seclabel: Option<&str>) -> (r: Result<
    (),
    AnonError,
>)
    ensures
        is_relabel(
            r,
            k_anonymity_relabel_of(
                class_id,
                match seclabel {
                    Some(text) => Some(text@),
                    None => None,
                },
            ),
        ),
{
    let label = match seclabel {
        Some(label) => label,
        None => {
            return Ok(());
        },
    };
    if class_id == RELATION_RELATION_ID {
        if is_match_indirect_identifier(label) {
            return Ok(());
        }
        return Err(invalid_label_for("a column", label, None));
    }
    // Everything else is not supported.
    Err(feature_not_supported("Placing a k_anonymity label on this object"))
}

/// The check of a label reads of what was parsed only what `fragment_of`
/// asks for: two outcomes of the parser that agree on it give the same
/// verdict.
pub proof fn lemma_relabel_reads_what_was_asked(
    class_id: u32,
    sub_id: i32,
    label: Option<Seq<char>>,
    superuser: bool,
    one: ParsedLabel,
    other: ParsedLabel,
    settings: Settings,
    catalog: Catalog,
)
    requires
        match fragment_of(class_id, sub_id, label) {
            FragmentView::Nothing => true,
            FragmentView::Value(_) => one.expression == other.expression,
            FragmentView::Function(_) => one.expression == other.expression,
            FragmentView::Sampling(_) => one.sampling == other.sampling,
        },
    ensures
        masking_relabel_of(class_id, sub_id, label, superuser, one, settings, catalog)
            == masking_relabel_of(class_id, sub_id, label, superuser, other, settings, catalog),
{
}

} // verus!
