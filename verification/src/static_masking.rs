//! Static masking: the statements that replace the authentic data of a
//! column or of a table for good.

use vstd::prelude::*;
use crate::catalog::{Attribute, Catalog, LabelStore, Relation};
use crate::guc::Settings;
use crate::masking::{
    any_masked, lemma_any_masked_grows, live_column, masking_value_for_column, subquery,
    subquery_of, value_for_att, value_of_att,
};
use crate::sampling::{get_ratio, ratio_of};
use crate::text::{decimal, join, joined, u32_to_decimal, views};
use crate::utils::{column_number_of, get_column_number, qualified_name, qualified_name_of};
use fake::{Fake, Faker};

verus! {

/// A text as the `{:?}` format of the standard library writes it: in double
/// quotes, with what cannot stand in a string literal escaped.
pub uninterp spec fn debug_text(text: Seq<char>) -> Seq<char>;

/// The `{:?}` format of a string slice: the text in double quotes, escaped as
/// in a string literal. The contract names that result and claims nothing
/// else of it.
#[verifier::external_body]
fn debug_quoted(text: &str) -> (r: String)
    ensures
        r@ == debug_text(text@),
{
    format!("{:?}", text)
}

/// `Faker.fake::<u32>()` of the fake crate: a number drawn at random. Nothing
/// is claimed of it.
#[verifier::external_body]
fn random_u32() -> u32 {
    Faker.fake::<u32>()
}

/// The assignment that masks a column: the column, as it was quoted, and what
/// masks it.
pub open spec fn assignment_text(column: Seq<char>, filter: Seq<char>) -> Seq<char> {
    column + " = "@ + filter
}

/// Writes the assignment that masks a column.
pub fn assignment_sql(column: &str, filter: &str) -> (r: String)
    ensures
        r@ == assignment_text(column@, filter@),
{
    let mut r = column.to_owned();
    r.append(" = ");
    r.append(filter);
    r
}

/// The assignment that masks the column named `colname`, if the relation has
/// a live column of that name and the column is masked.
pub open spec fn column_assignment_of(
    rel: Relation,
    colname: Seq<char>,
    labels: LabelStore,
    settings: Settings,
    policy: Seq<char>,
) -> Option<Seq<char>> {
    match column_number_of(rel.attributes@, colname) {
        None => None,
        Some(colnum) => match live_column(rel, colnum as i32) {
            None => None,
            Some(att) => if value_of_att(rel, att, labels, settings, policy).1 {
                Some(
                    assignment_text(
                        debug_text(colname),
                        value_of_att(rel, att, labels, settings, policy).0,
                    ),
                )
            } else {
                None
            },
        },
    }
}

/// Returns the assignment that masks the data of a column, or nothing where
/// the column has no masking rule.
pub fn column_assignment(
    rel: &Relation,
    colname: &str,
    labels: &LabelStore,
    settings: &Settings,
    policy: &str,
) -> (r: Option<String>)
    ensures
        match r {
            Some(assignment) => column_assignment_of(*rel, colname@, *labels, *settings, policy@)
                == Some(assignment@),
            None => column_assignment_of(*rel, colname@, *labels, *settings, policy@) is None,
        },
{
    let colnum = match get_column_number(rel, colname) {
        Some(colnum) => colnum,
        None => {
            return None;
        },
    };
    let (masking_filter, att_is_masked) = match masking_value_for_column(
        rel,
        colnum as i32,
        labels,
        settings,
        policy,
    ) {
        Some(value) => value,
        None => {
            return None;
        },
    };
    if !att_is_masked {
        return None;
    }
    let quoted = debug_quoted(colname);
    Some(assignment_sql(quoted.as_str(), masking_filter.as_str()))
}

/// The assignment that masks a column of a relation: the column's name in
/// the catalog, quoted once, and what masks the column.
pub open spec fn assignment_of(
    rel: Relation,
    att: Attribute,
    labels: LabelStore,
    settings: Settings,
    policy: Seq<char>,
) -> Seq<char> {
    assignment_text(debug_text(att.name@), value_of_att(rel, att, labels, settings, policy).0)
}

/// The assignments that mask the masked live columns among `attributes`. A
/// column is named as `column_assignment_of` names it: by its name in the
/// catalog, quoted once.
pub open spec fn assignments_of(
    rel: Relation,
    attributes: Seq<Attribute>,
    labels: LabelStore,
    settings: Settings,
    policy: Seq<char>,
) -> Seq<Seq<char>>
    decreases attributes.len(),
{
    if attributes.len() == 0 {
        Seq::empty()
    } else if !attributes.last().dropped && value_of_att(
        rel,
        attributes.last(),
        labels,
        settings,
        policy,
    ).1 {
        assignments_of(rel, attributes.drop_last(), labels, settings, policy).push(
            assignment_of(rel, attributes.last(), labels, settings, policy),
        )
    } else {
        assignments_of(rel, attributes.drop_last(), labels, settings, policy)
    }
}

/// The assignments that mask a relation, one for each masked column, if it
/// has a masked column.
pub open spec fn table_assignments_of(
    rel: Relation,
    labels: LabelStore,
    settings: Settings,
    policy: Seq<char>,
) -> Option<Seq<char>> {
    if assignments_of(rel, rel.attributes@, labels, settings, policy).len() == 0 {
        None
    } else {
        Some(joined(assignments_of(rel, rel.attributes@, labels, settings, policy), ", "@))
    }
}

/// Returns the assignments that mask the data of a table: one for each live
/// column that is masked, in the order of the columns, or nothing where no
/// column is masked.
pub fn table_assignments(
    rel: &Relation,
    labels: &LabelStore,
    settings: &Settings,
    policy: &str,
) -> (r: Option<String>)
    ensures
        match r {
            Some(assignments) => table_assignments_of(*rel, *labels, *settings, policy@) == Some(
                assignments@,
            ),
            None => table_assignments_of(*rel, *labels, *settings, policy@) is None,
        },
        r is Some <==> any_masked(*rel, rel.attributes@, *labels, *settings, policy@),
{
    proof {
        lemma_assignments_follow_the_masks(*rel, rel.attributes@, *labels, *settings, policy@);
    }
    let mut assignments: Vec<String> = Vec::new();
    let mut i: usize = 0;
    while i < rel.attributes.len()
        invariant
            i <= rel.attributes.len(),
            views(assignments@) == assignments_of(
                *rel,
                rel.attributes@.subrange(0, i as int),
                *labels,
                *settings,
                policy@,
            ),
        decreases rel.attributes.len() - i,
    {
        let a = &rel.attributes[i];
        assert(rel.attributes@.subrange(0, i + 1).drop_last() == rel.attributes@.subrange(
            0,
            i as int,
        ));
        if !a.dropped {
            let (filter_value, att_is_masked) = value_for_att(rel, a, labels, settings, policy);
            if att_is_masked {
                let quoted = debug_quoted(a.name.as_str());
                let assignment = assignment_sql(quoted.as_str(), filter_value.as_str());
                assignments.push(assignment);
            }
        }
        i += 1;
    }
    assert(rel.attributes@.subrange(0, i as int) == rel.attributes@);
    if assignments.len() == 0 {
        return None;
    }
    Some(join(&assignments, ", "))
}

/// What is to be done to anonymize a column or a table.
#[derive(Debug, PartialEq, Eq)]
pub enum Plan {
    /// The relation has no full name: nothing is done and nothing is
    /// answered.
    Nothing,
    /// No rule applies: nothing is done, and the answer is `false`.
    NoRule,
    /// The statement is to be run in one transaction. The answer is `true`.
    Run(String),
}

/// A plan with its statement as a sequence of characters.
pub enum PlanView {
    Nothing,
    NoRule,
    Run(Seq<char>),
}

impl View for Plan {
    type V = PlanView;

    open spec fn view(&self) -> PlanView {
        match self {
            Plan::Nothing => PlanView::Nothing,
            Plan::NoRule => PlanView::NoRule,
            Plan::Run(sql) => PlanView::Run(sql@),
        }
    }
}

impl Plan {
    /// What is answered once the plan is carried out: nothing for a relation
    /// without a name, `false` where no rule applies, `true` where the
    /// statement ran.
    pub fn answer(&self) -> (r: Option<bool>)
        ensures
            r == match self@ {
                PlanView::Nothing => None,
                PlanView::NoRule => Some(false),
                PlanView::Run(_) => Some(true),
            },
    {
        match self {
            Plan::Nothing => None,
            Plan::NoRule => Some(false),
            Plan::Run(_) => Some(true),
        }
    }
}

/// The plan to anonymize a column, and whether a sampling rule of the table
/// is left aside by it.
#[derive(Debug, PartialEq, Eq)]
pub struct ColumnPlan {
    pub plan: Plan,
    /// The table has a sampling ratio, which a single column cannot follow.
    pub sampling_ignored: bool,
}

/// The statement that masks a column: constraints are deferred, then the
/// column is updated in every row.
pub open spec fn column_update_text(table: Seq<char>, assignment: Seq<char>) -> Seq<char> {
    "SET CONSTRAINTS ALL DEFERRED; UPDATE "@ + table + " SET "@ + assignment + ";"@
}

/// The plan to anonymize a column: nothing for a relation without a name, no
/// rule where the column is not masked, else the update of the column.
pub open spec fn column_plan_of(
    rel: Relation,
    colname: Seq<char>,
    catalog: Catalog,
    settings: Settings,
    policy: Seq<char>,
) -> PlanView {
    match qualified_name_of(rel) {
        None => PlanView::Nothing,
        Some(table) => match column_assignment_of(rel, colname, catalog.labels, settings, policy) {
            None => PlanView::NoRule,
            Some(assignment) => PlanView::Run(column_update_text(table, assignment)),
        },
    }
}

/// Applies a masking policy to a column: plans the update that replaces the
/// column's values by its masking value. A sampling ratio of the table is
/// left aside: only a whole table can be sampled.
pub fn anonymize_column(
    rel: &Relation,
    colname: &str,
    catalog: &Catalog,
    settings: &Settings,
    policy: &str,
) -> (r: ColumnPlan)
    ensures
        r.plan@ == column_plan_of(*rel, colname@, *catalog, *settings, policy@),
        r.sampling_ignored == ratio_of(*catalog, rel.oid, policy@) is Ok,
{
    let ratio = get_ratio(catalog, rel.oid, policy);
    // A sampling rule cannot be applied to just a column.
    let sampling_ignored = ratio.is_ok();
    let tablename = match qualified_name(rel) {
        Some(tablename) => tablename,
        None => {
            return ColumnPlan { plan: Plan::Nothing, sampling_ignored };
        },
    };
    let assign = match column_assignment(rel, colname, &catalog.labels, settings, policy) {
        Some(assign) => assign,
        None => {
            return ColumnPlan { plan: Plan::NoRule, sampling_ignored };
        },
    };
    let mut sql = String::from_str("SET CONSTRAINTS ALL DEFERRED; UPDATE ");
    sql.append(tablename.as_str());
    sql.append(" SET ");
    sql.append(assign.as_str());
    sql.append(";");
    ColumnPlan { plan: Plan::Run(sql), sampling_ignored }
}

/// The name of the table that holds the sampled and masked rows while the
/// relation `relid` is rewritten.
pub open spec fn swap_table_text(relid: u32, suffix: u32) -> Seq<char> {
    "anon_swap_"@ + decimal(relid as nat) + "_"@ + decimal(suffix as nat)
}

/// The statements that rewrite a table from its masking subquery: the masked
/// and sampled rows go to a temporary table, the table is emptied and filled
/// from it again, and the temporary table is dropped.
pub open spec fn swap_text(swap_table: Seq<char>, subquery: Seq<char>, table: Seq<char>) -> Seq<
    char,
> {
    "CREATE TEMPORARY TABLE "@ + swap_table + " AS "@ + subquery + "; TRUNCATE TABLE "@ + table
        + "; INSERT INTO "@ + table + " SELECT * FROM "@ + swap_table + "; DROP TABLE "@
        + swap_table + ";"@
}

/// The statement that masks the masked columns of a table in every row.
pub open spec fn table_update_text(table: Seq<char>, assignments: Seq<char>) -> Seq<char> {
    "UPDATE "@ + table + " SET "@ + assignments
}

/// The plan to anonymize a table, where `suffix` ends the name of the
/// temporary table. Nothing for a relation without a name. Where a sampling
/// ratio applies, rows must go: the table is rewritten from its masking
/// subquery. Else, where a column is masked, one update masks the masked
/// columns. Else no rule applies.
pub open spec fn table_plan_of(
    rel: Relation,
    catalog: Catalog,
    settings: Settings,
    policy: Seq<char>,
    suffix: u32,
) -> PlanView {
    match qualified_name_of(rel) {
        None => PlanView::Nothing,
        Some(table) => if ratio_of(catalog, rel.oid, policy) is Ok {
            match subquery_of(rel, catalog, settings, policy) {
                None => PlanView::NoRule,
                Some(subquery) => PlanView::Run(
                    swap_text(swap_table_text(rel.oid, suffix), subquery, table),
                ),
            }
        } else {
            match table_assignments_of(rel, catalog.labels, settings, policy) {
                None => PlanView::NoRule,
                Some(assignments) => PlanView::Run(table_update_text(table, assignments)),
            }
        },
    }
}

/// Plans the anonymization of a table, with `suffix` to end the name of the
/// temporary table that a rewrite of the table goes through.
pub fn anonymize_table_with(
    rel: &Relation,
    catalog: &Catalog,
    settings: &Settings,
    policy: &str,
    suffix: u32,
) -> (r: Plan)
    ensures
        r@ == table_plan_of(*rel, *catalog, *settings, policy@, suffix),
{
    let ratio = get_ratio(catalog, rel.oid, policy);
    let tablename = match qualified_name(rel) {
        Some(tablename) => tablename,
        None => {
            return Plan::Nothing;
        },
    };
    if ratio.is_ok() {
        // With a sampling ratio the table cannot simply be updated: it has
        // to be rewritten completely. Where another table refers to it, this
        // is likely to fail.
        let masking_subquery = match subquery(rel, catalog, settings, policy) {
            Some(masking_subquery) => masking_subquery,
            None => {
                return Plan::NoRule;
            },
        };
        let mut swap_table = String::from_str("anon_swap_");
        swap_table.append(u32_to_decimal(rel.oid).as_str());
        swap_table.append("_");
        swap_table.append(u32_to_decimal(suffix).as_str());
        let mut sql = String::from_str("CREATE TEMPORARY TABLE ");
        sql.append(swap_table.as_str());
        sql.append(" AS ");
        sql.append(masking_subquery.as_str());
        sql.append("; TRUNCATE TABLE ");
        sql.append(tablename.as_str());
        sql.append("; INSERT INTO ");
        sql.append(tablename.as_str());
        sql.append(" SELECT * FROM ");
        sql.append(swap_table.as_str());
        sql.append("; DROP TABLE ");
        sql.append(swap_table.as_str());
        sql.append(";");
        Plan::Run(sql)
    } else {
        let masking_assignments = match table_assignments(rel, &catalog.labels, settings, policy) {
            Some(masking_assignments) => masking_assignments,
            None => {
                return Plan::NoRule;
            },
        };
        let mut sql = String::from_str("UPDATE ");
        sql.append(tablename.as_str());
        sql.append(" SET ");
        sql.append(masking_assignments.as_str());
        Plan::Run(sql)
    }
}

/// Applies a masking policy to a relation: plans the statements that replace
/// its data. The name of the temporary table ends in a number drawn at
/// random.
pub fn anonymize_table(rel: &Relation, catalog: &Catalog, settings: &Settings, policy: &str) -> (r:
    Plan)
    ensures
        exists|suffix: u32|
            r@ == #[trigger] table_plan_of(*rel, *catalog, *settings, policy@, suffix),
{
    let suffix = random_u32();
    anonymize_table_with(rel, catalog, settings, policy, suffix)
}

/// In a well formed relation, the number of a column leads back to the
/// column: the assignment for a column named `colname` masks the column of
/// that name.
pub proof fn lemma_column_number_finds_the_column(rel: Relation, colname: Seq<char>)
    requires
        rel.wf(),
        column_number_of(rel.attributes@, colname) is Some,
    ensures
        live_column(rel, column_number_of(rel.attributes@, colname)->0 as i32) is Some,
        live_column(rel, column_number_of(rel.attributes@, colname)->0 as i32)->0.name@ == colname,
{
    assert(rel.attributes@.subrange(0, rel.attributes@.len() as int) == rel.attributes@);
    lemma_column_number_is_a_position(rel, rel.attributes@.len() as int, colname);
}

proof fn lemma_column_number_is_a_position(rel: Relation, n: int, colname: Seq<char>)
    requires
        rel.wf(),
        0 <= n <= rel.attributes@.len(),
        column_number_of(rel.attributes@.subrange(0, n), colname) is Some,
    ensures
        ({
            let number = column_number_of(rel.attributes@.subrange(0, n), colname)->0;
            &&& 1 <= number <= n
            &&& !rel.attributes@[number - 1].dropped
            &&& rel.attributes@[number - 1].name@ == colname
        }),
    decreases n,
{
    let prefix = rel.attributes@.subrange(0, n);
    if n > 0 {
        assert(prefix.drop_last() == rel.attributes@.subrange(0, n - 1));
        if !(!prefix.last().dropped && prefix.last().name@ == colname) {
            lemma_column_number_is_a_position(rel, n - 1, colname);
        }
    }
}

/// Static and dynamic masking agree on what is masked: a table gets
/// assignments exactly when one of its live columns is masked, which is when
/// its select list masks a column.
pub proof fn lemma_assignments_follow_the_masks(
    rel: Relation,
    attributes: Seq<Attribute>,
    labels: LabelStore,
    settings: Settings,
    policy: Seq<char>,
)
    ensures
        assignments_of(rel, attributes, labels, settings, policy).len() > 0 <==> any_masked(
            rel,
            attributes,
            labels,
            settings,
            policy,
        ),
    decreases attributes.len(),
{
    if attributes.len() > 0 {
        lemma_assignments_follow_the_masks(rel, attributes.drop_last(), labels, settings, policy);
        lemma_any_masked_grows(rel, attributes, labels, settings, policy);
    }
}

/// The two static paths write the same assignment: for a live, masked column
/// of a well formed relation that its name finds, the assignment that
/// `column_assignment` gives for the name is the one that
/// `table_assignments` writes for the column.
pub proof fn lemma_column_and_table_assignments_agree(
    rel: Relation,
    i: int,
    labels: LabelStore,
    settings: Settings,
    policy: Seq<char>,
)
    requires
        rel.wf(),
        0 <= i < rel.attributes@.len(),
        !rel.attributes@[i].dropped,
        value_of_att(rel, rel.attributes@[i], labels, settings, policy).1,
        column_number_of(rel.attributes@, rel.attributes@[i].name@) == Some(
            rel.attributes@[i].attnum,
        ),
    ensures
        column_assignment_of(rel, rel.attributes@[i].name@, labels, settings, policy) == Some(
            assignment_of(rel, rel.attributes@[i], labels, settings, policy),
        ),
{
}

} // verus!
