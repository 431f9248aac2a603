//! The masking rules of an object, and the SQL that masks a column or a
//! relation.

use vstd::prelude::*;
use crate::catalog::{
    Answer, Attribute, AttrDefault, Catalog, LabelStore, Relation, AUTH_ID_RELATION_ID,
    DATABASE_RELATION_ID, NAMESPACE_RELATION_ID, PROCEDURE_RELATION_ID, RELATION_RELATION_ID,
};
use crate::guc::Settings;
use crate::label_providers::ANON_DEFAULT_MASKING_POLICY;
use crate::re::{
    capture_function, capture_guc_list, capture_value, function_of, is_masked, is_match_masked,
    is_match_not_masked, is_not_masked, list_entries, slice_views, value_of,
};
use crate::sampling::{get_ratio, ratio_of};
use crate::text::{join, joined, views};
use crate::utils::{live_numbers, qualified_name, qualified_name_of};
use md5::{Digest, Md5};

verus! {

/// Why the masking rule of an object could not be had.
#[derive(PartialEq, Eq, Clone, Copy, Debug, Structural)]
pub enum Reason {
    /// The object has no label in the policy.
    NoRule,
    /// The label store could not be read for the object.
    InvalidObject,
    /// The object has a label, but not of the kind that was asked for.
    InvalidInput,
}

/// The rule of an object in a policy: its label, `NoRule` where it has none,
/// `InvalidObject` where the label store could not be read for it.
pub open spec fn rule_of(
    labels: LabelStore,
    class_id: u32,
    object_id: u32,
    sub_id: i32,
    policy: Seq<char>,
) -> Result<Seq<char>, Reason> {
    match labels.answer_of(class_id, object_id, sub_id, policy) {
        Answer::Label(text) => Ok(text),
        Answer::NoLabel => Err(Reason::NoRule),
        Answer::NoObject => Err(Reason::InvalidObject),
    }
}

/// Whether `r` is the outcome `of`, the text taken by its view.
pub open spec fn is_rule(r: Result<&str, Reason>, of: Result<Seq<char>, Reason>) -> bool {
    match r {
        Ok(text) => of == Ok::<Seq<char>, Reason>(text@),
        Err(e) => of == Err::<Seq<char>, Reason>(e),
    }
}

/// Reads the rule of an object in a policy.
pub fn rule<'a>(
    labels: &'a LabelStore,
    class_id: u32,
    object_id: u32,
    sub_id: i32,
    policy: &str,
) -> (r: Result<&'a str, Reason>)
    ensures
        is_rule(r, rule_of(*labels, class_id, object_id, sub_id, policy@)),
{
    match labels.find(class_id, object_id, sub_id, policy) {
        // Without an answer, the object has no masking rule in this policy.
        None => Err(Reason::NoRule),
        Some(entry) => match &entry.label {
            Some(text) => Ok(text.as_str()),
            // Something went wrong when the label was read.
            None => Err(Reason::InvalidObject),
        },
    }
}

/// Reads the rule of a database.
pub fn rule_on_database<'a>(labels: &'a LabelStore, object_id: u32, policy: &str) -> (r: Result<
    &'a str,
    Reason,
>)
    ensures
        is_rule(r, rule_of(*labels, DATABASE_RELATION_ID, object_id, 0, policy@)),
{
    rule(labels, DATABASE_RELATION_ID, object_id, 0, policy)
}

/// Reads the rule of one definition of a function.
pub fn rule_on_function<'a>(labels: &'a LabelStore, object_id: u32, policy: &str) -> (r: Result<
    &'a str,
    Reason,
>)
    ensures
        is_rule(r, rule_of(*labels, PROCEDURE_RELATION_ID, object_id, 0, policy@)),
{
    rule(labels, PROCEDURE_RELATION_ID, object_id, 0, policy)
}

/// Reads the rule of a role.
pub fn rule_on_role<'a>(labels: &'a LabelStore, object_id: u32, policy: &str) -> (r: Result<
    &'a str,
    Reason,
>)
    ensures
        is_rule(r, rule_of(*labels, AUTH_ID_RELATION_ID, object_id, 0, policy@)),
{
    rule(labels, AUTH_ID_RELATION_ID, object_id, 0, policy)
}

/// Reads the rule of a table.
pub fn rule_on_table<'a>(labels: &'a LabelStore, object_id: u32, policy: &str) -> (r: Result<
    &'a str,
    Reason,
>)
    ensures
        is_rule(r, rule_of(*labels, RELATION_RELATION_ID, object_id, 0, policy@)),
{
    rule(labels, RELATION_RELATION_ID, object_id, 0, policy)
}

/// Reads the rule of a schema.
pub fn rule_on_schema<'a>(labels: &'a LabelStore, object_id: u32, policy: &str) -> (r: Result<
    &'a str,
    Reason,
>)
    ensures
        is_rule(r, rule_of(*labels, NAMESPACE_RELATION_ID, object_id, 0, policy@)),
{
    rule(labels, NAMESPACE_RELATION_ID, object_id, 0, policy)
}

/// Whether the role carries `MASKED` in the policy.
pub open spec fn has_mask(labels: LabelStore, roleid: u32, policy: Seq<char>) -> bool {
    match labels.label_of(AUTH_ID_RELATION_ID, roleid, 0, policy) {
        Some(text) => is_masked(text),
        None => false,
    }
}

/// Checks that a role is masked in a policy.
pub fn has_mask_in_policy(labels: &LabelStore, roleid: u32, policy: &str) -> (r: bool)
    ensures
        r == has_mask(*labels, roleid, policy@),
{
    match rule_on_role(labels, roleid, policy) {
        Ok(seclabel) => is_match_masked(seclabel),
        Err(_) => false,
    }
}

/// The names of the masking policies: the default policy, then the declared
/// ones in their order.
pub open spec fn policy_names(settings: Settings) -> Seq<Seq<char>> {
    seq![ANON_DEFAULT_MASKING_POLICY@] + list_entries(settings.masking_policies@)
}

/// Lists the masking policies: the default policy first, then those that the
/// settings declare, in their order.
pub fn list_masking_policies<'a>(settings: &'a Settings) -> (r: Vec<&'a str>)
    ensures
        slice_views(r@) == policy_names(*settings),
{
    let mut masking_policies: Vec<&'a str> = Vec::new();
    masking_policies.push(ANON_DEFAULT_MASKING_POLICY);
    let declared = capture_guc_list(settings.masking_policies.as_str());
    let mut i: usize = 0;
    while i < declared.len()
        invariant
            i <= declared.len(),
            slice_views(masking_policies@) == seq![ANON_DEFAULT_MASKING_POLICY@] + slice_views(
                declared@,
            ).subrange(0, i as int),
        decreases declared.len() - i,
    {
        let ghost before = slice_views(masking_policies@);
        masking_policies.push(declared[i]);
        assert(slice_views(masking_policies@) =~= before.push(declared@[i as int]@));
        i += 1;
    }
    masking_policies
}

/// The first of `policies`, at or after position `from`, in which the role is
/// masked.
pub open spec fn first_masking_policy(
    labels: LabelStore,
    roleid: u32,
    policies: Seq<Seq<char>>,
    from: int,
) -> Option<Seq<char>>
    decreases policies.len() - from,
{
    if from < 0 || from >= policies.len() {
        None
    } else if has_mask(labels, roleid, policies[from]) {
        Some(policies[from])
    } else {
        first_masking_policy(labels, roleid, policies, from + 1)
    }
}

/// The policy in which the role is masked: the first one, in the order of
/// `policy_names`, in which it carries `MASKED`.
pub open spec fn masking_policy_of(labels: LabelStore, settings: Settings, roleid: u32) -> Option<
    Seq<char>,
> {
    first_masking_policy(labels, roleid, policy_names(settings), 0)
}

/// For a role, returns the policy in which it is masked, or nothing if it is
/// masked in none. Roles do not inherit a mask from the roles they belong to.
pub fn get_masking_policy(labels: &LabelStore, settings: &Settings, roleid: u32) -> (r: Option<
    String,
>)
    ensures
        match r {
            Some(policy) => masking_policy_of(*labels, *settings, roleid) == Some(policy@),
            None => masking_policy_of(*labels, *settings, roleid) is None,
        },
{
    let policies = list_masking_policies(settings);
    let mut i: usize = 0;
    while i < policies.len()
        invariant
            i <= policies.len(),
            slice_views(policies@) == policy_names(*settings),
            masking_policy_of(*labels, *settings, roleid) == first_masking_policy(
                *labels,
                roleid,
                policy_names(*settings),
                i as int,
            ),
        decreases policies.len() - i,
    {
        if has_mask_in_policy(labels, roleid, policies[i]) {
            return Some(policies[i].to_owned());
        }
        i += 1;
    }
    None
}

/// The first policy in which a role is masked is the one that
/// `masking_policy_of` names: the role is masked in it and in none of the
/// policies before it, and where it names none the role is masked in no
/// policy.
pub proof fn lemma_masking_policy_is_first(labels: LabelStore, settings: Settings, roleid: u32)
    ensures
        match masking_policy_of(labels, settings, roleid) {
            Some(policy) => exists|i: int|
                0 <= i < policy_names(settings).len() && #[trigger] policy_names(settings)[i]
                    == policy && has_mask(labels, roleid, policy) && forall|j: int|
                    0 <= j < i ==> !has_mask(labels, roleid, #[trigger] policy_names(settings)[j]),
            None => forall|i: int|
                0 <= i < policy_names(settings).len() ==> !has_mask(
                    labels,
                    roleid,
                    #[trigger] policy_names(settings)[i],
                ),
        },
{
    lemma_first_masking_policy(labels, roleid, policy_names(settings), 0);
}

/// The policy of a role follows from the labels of the role alone: as long
/// as the settings and the labels of the role stay, the answer stays,
/// whatever else is labeled anew.
pub proof fn lemma_masking_policy_is_stable(
    before: LabelStore,
    after: LabelStore,
    settings: Settings,
    roleid: u32,
)
    requires
        forall|policy: Seq<char>|
            before.label_of(AUTH_ID_RELATION_ID, roleid, 0, policy) == after.label_of(
                AUTH_ID_RELATION_ID,
                roleid,
                0,
                policy,
            ),
    ensures
        masking_policy_of(before, settings, roleid) == masking_policy_of(after, settings, roleid),
{
    lemma_first_masking_policy_is_stable(before, after, roleid, policy_names(settings), 0);
}

proof fn lemma_first_masking_policy_is_stable(
    before: LabelStore,
    after: LabelStore,
    roleid: u32,
    policies: Seq<Seq<char>>,
    from: int,
)
    requires
        0 <= from,
        forall|policy: Seq<char>|
            before.label_of(AUTH_ID_RELATION_ID, roleid, 0, policy) == after.label_of(
                AUTH_ID_RELATION_ID,
                roleid,
                0,
                policy,
            ),
    ensures
        first_masking_policy(before, roleid, policies, from) == first_masking_policy(
            after,
            roleid,
            policies,
            from,
        ),
    decreases policies.len() - from,
{
    if from < policies.len() {
        lemma_first_masking_policy_is_stable(before, after, roleid, policies, from + 1);
    }
}

proof fn lemma_first_masking_policy(
    labels: LabelStore,
    roleid: u32,
    policies: Seq<Seq<char>>,
    from: int,
)
    requires
        0 <= from <= policies.len(),
    ensures
        match first_masking_policy(labels, roleid, policies, from) {
            Some(policy) => exists|i: int|
                from <= i < policies.len() && #[trigger] policies[i] == policy && has_mask(
                    labels,
                    roleid,
                    policy,
                ) && forall|j: int|
                    from <= j < i ==> !has_mask(labels, roleid, #[trigger] policies[j]),
            None => forall|i: int|
                from <= i < policies.len() ==> !has_mask(labels, roleid, #[trigger] policies[i]),
        },
    decreases policies.len() - from,
{
    if from < policies.len() && !has_mask(labels, roleid, policies[from]) {
        lemma_first_masking_policy(labels, roleid, policies, from + 1);
    }
}

/// `value` cast to the type `type_text`.
pub open spec fn cast_text(value: Seq<char>, type_text: Seq<char>) -> Seq<char> {
    "CAST("@ + value + " AS "@ + type_text + ")"@
}

/// Decorates a value with a cast to a type: the value `1` and the type
/// `integer` give `CAST(1 AS integer)`.
pub fn cast_as_regtype(value: &str, type_text: &str) -> (r: String)
    ensures
        r@ == cast_text(value@, type_text@),
{
    let mut r = String::from_str("CAST(");
    r.append(value);
    r.append(" AS ");
    r.append(type_text);
    r.append(")");
    r
}

/// Checks whether a column is generated.
pub fn is_generated(att: &Attribute) -> (r: bool)
    ensures
        r == att.generated,
{
    att.generated
}

/// The expression of the first default for column number `attnum` at or after
/// position `from`.
pub open spec fn default_from(defaults: Seq<AttrDefault>, attnum: i16, from: int) -> Option<
    Seq<char>,
>
    decreases defaults.len() - from,
{
    if from < 0 || from >= defaults.len() {
        None
    } else if defaults[from].adnum == attnum {
        Some(defaults[from].expr@)
    } else {
        default_from(defaults, attnum, from + 1)
    }
}

/// The default value of a column (`generated` false) or its generation
/// expression (`generated` true). A dropped column has neither, and a column
/// of the other kind has none of this kind.
pub open spec fn default_of(rel: Relation, att: Attribute, generated: bool) -> Option<Seq<char>> {
    if att.dropped || generated != att.generated {
        None
    } else {
        default_from(rel.defaults@, att.attnum, 0)
    }
}

/// Returns the default value of a column, or the generation expression of a
/// generated one.
pub fn default_for_att<'a>(rel: &'a Relation, att: &Attribute, generated: bool) -> (r: Option<
    &'a str,
>)
    ensures
        match r {
            Some(expr) => default_of(*rel, *att, generated) == Some(expr@),
            None => default_of(*rel, *att, generated) is None,
        },
{
    if att.dropped {
        return None;
    }
    if generated != is_generated(att) {
        return None;
    }
    let mut i: usize = 0;
    while i < rel.defaults.len()
        invariant
            i <= rel.defaults.len(),
            !att.dropped,
            generated == att.generated,
            default_from(rel.defaults@, att.attnum, 0) == default_from(
                rel.defaults@,
                att.attnum,
                i as int,
            ),
        decreases rel.defaults.len() - i,
    {
        if rel.defaults[i].adnum == att.attnum {
            return Some(rel.defaults[i].expr.as_str());
        }
        i += 1;
    }
    None
}

/// The label of a column in a policy, empty where it has none.
pub open spec fn column_label(
    labels: LabelStore,
    relid: u32,
    attnum: i16,
    policy: Seq<char>,
) -> Seq<char> {
    match labels.label_of(RELATION_RELATION_ID, relid, attnum as i32, policy) {
        Some(text) => text,
        None => Seq::empty(),
    }
}

/// A masking value as the rule gives it, cast to the column's type under
/// strict mode.
pub open spec fn typed(value: Seq<char>, att: Attribute, settings: Settings) -> Seq<char> {
    if settings.strict_mode {
        cast_text(value, att.type_text@)
    } else {
        value
    }
}

/// What masks a column that has no rule of its own under privacy by default:
/// its default value or generation expression if it has one, else `NULL`.
pub open spec fn fallback_value(rel: Relation, att: Attribute) -> Seq<char> {
    if att.has_default && att.attnum > 0 && !att.dropped {
        match default_of(rel, att, att.generated) {
            Some(expr) => expr,
            None => "NULL"@,
        }
    } else {
        "NULL"@
    }
}

/// The masking value of a column whose label is `label`, and whether the
/// column is masked. The first that applies decides:
/// no label and no privacy by default, the column's own name;
/// a masking function, its call; a masking value, the value;
/// `NOT MASKED`, the column's own name; else the fallback value.
pub open spec fn masking_value(
    rel: Relation,
    att: Attribute,
    label: Seq<char>,
    settings: Settings,
) -> (Seq<char>, bool) {
    if label.len() == 0 && !settings.privacy_by_default {
        (att.quoted_name@, false)
    } else if function_of(label) is Some {
        (typed(function_of(label)->0, att, settings), true)
    } else if value_of(label) is Some {
        (typed(value_of(label)->0, att, settings), true)
    } else if is_not_masked(label) {
        (att.quoted_name@, false)
    } else {
        (fallback_value(rel, att), true)
    }
}

/// The masking value of a column in a policy, and whether the column is
/// masked.
pub open spec fn value_of_att(
    rel: Relation,
    att: Attribute,
    labels: LabelStore,
    settings: Settings,
    policy: Seq<char>,
) -> (Seq<char>, bool) {
    masking_value(rel, att, column_label(labels, rel.oid, att.attnum, policy), settings)
}

/// Returns the masking value of a column and whether the column is masked.
/// The value is the column's own name, the function or value of its masking
/// rule, its default value or generation expression, or `NULL`.
pub fn value_for_att(
    rel: &Relation,
    att: &Attribute,
    labels: &LabelStore,
    settings: &Settings,
    policy: &str,
) -> (r: (String, bool))
    ensures
        r.0@ == value_of_att(*rel, *att, *labels, *settings, policy@).0,
        r.1 == value_of_att(*rel, *att, *labels, *settings, policy@).1,
        labels.label_of(RELATION_RELATION_ID, rel.oid, att.attnum as i32, policy@) is None
            && !settings.privacy_by_default ==> r.0@ == att.quoted_name@ && !r.1,
{
    let seclabel: &str = match labels.get_label(
        RELATION_RELATION_ID,
        rel.oid,
        att.attnum as i32,
        policy,
    ) {
        Some(text) => text,
        None => "",
    };
    proof {
        reveal_strlit("");
    }

    // No masking rule found and privacy by default is off:
    // the authentic value is revealed.
    if seclabel.unicode_len() == 0 && !settings.privacy_by_default {
        return (att.quoted_name.clone(), false);
    }
    // Search for a masking function.
    if let Some(function) = capture_function(seclabel) {
        if settings.strict_mode {
            return (cast_as_regtype(function, att.type_text.as_str()), true);
        }
        return (function.to_owned(), true);
    }
    // Search for a masking value.
    if let Some(value) = capture_value(seclabel) {
        if settings.strict_mode {
            return (cast_as_regtype(value, att.type_text.as_str()), true);
        }
        return (value.to_owned(), true);
    }
    // The column is declared as not masked: the authentic value is shown.
    if is_match_not_masked(seclabel) {
        return (att.quoted_name.clone(), false);
    }
    // Privacy by default: mask with the default value of the column, or the
    // expression that generates it, and with NULL where it has neither.
    if att.has_default && att.attnum > 0 && !att.dropped {
        if let Some(default_value) = default_for_att(rel, att, is_generated(att)) {
            return (default_value.to_owned(), true);
        }
        return ("NULL".to_owned(), true);
    }
    ("NULL".to_owned(), true)
}

/// The select-list entry of a live column: its masking value under its own
/// name.
pub open spec fn filter_of(
    rel: Relation,
    att: Attribute,
    labels: LabelStore,
    settings: Settings,
    policy: Seq<char>,
) -> Seq<char> {
    value_of_att(rel, att, labels, settings, policy).0 + " AS "@ + att.quoted_name@
}

/// The select-list entries of the live columns among `attributes`, in order.
pub open spec fn filters_of(
    rel: Relation,
    attributes: Seq<Attribute>,
    labels: LabelStore,
    settings: Settings,
    policy: Seq<char>,
) -> Seq<Seq<char>>
    decreases attributes.len(),
{
    if attributes.len() == 0 {
        Seq::empty()
    } else if attributes.last().dropped {
        filters_of(rel, attributes.drop_last(), labels, settings, policy)
    } else {
        filters_of(rel, attributes.drop_last(), labels, settings, policy).push(
            filter_of(rel, attributes.last(), labels, settings, policy),
        )
    }
}

/// Whether a live column among `attributes` is masked.
pub open spec fn any_masked(
    rel: Relation,
    attributes: Seq<Attribute>,
    labels: LabelStore,
    settings: Settings,
    policy: Seq<char>,
) -> bool {
    exists|i: int|
        0 <= i < attributes.len() && !(#[trigger] attributes[i]).dropped && value_of_att(
            rel,
            attributes[i],
            labels,
            settings,
            policy,
        ).1
}

/// A live column among `attributes` is masked exactly when one among all but
/// the last is, or the last is live and masked.
pub proof fn lemma_any_masked_grows(
    rel: Relation,
    attributes: Seq<Attribute>,
    labels: LabelStore,
    settings: Settings,
    policy: Seq<char>,
)
    requires
        attributes.len() > 0,
    ensures
        any_masked(rel, attributes, labels, settings, policy) == (any_masked(
            rel,
            attributes.drop_last(),
            labels,
            settings,
            policy,
        ) || (!attributes.last().dropped && value_of_att(
            rel,
            attributes.last(),
            labels,
            settings,
            policy,
        ).1)),
{
    let head = attributes.drop_last();
    let last = attributes.last();
    if any_masked(rel, attributes, labels, settings, policy) {
        let k = choose|k: int|
            0 <= k < attributes.len() && !(#[trigger] attributes[k]).dropped && value_of_att(
                rel,
                attributes[k],
                labels,
                settings,
                policy,
            ).1;
        if k < attributes.len() - 1 {
            assert(head[k] == attributes[k]);
        }
    }
    if any_masked(rel, head, labels, settings, policy) {
        let k = choose|k: int|
            0 <= k < head.len() && !(#[trigger] head[k]).dropped && value_of_att(
                rel,
                head[k],
                labels,
                settings,
                policy,
            ).1;
        assert(attributes[k] == head[k]);
    }
    if !last.dropped && value_of_att(rel, last, labels, settings, policy).1 {
        assert(attributes[attributes.len() - 1] == last);
    }
}

/// The select list that masks a relation, and whether one of its live columns
/// is masked.
pub open spec fn masking_expressions_of(
    rel: Relation,
    labels: LabelStore,
    settings: Settings,
    policy: Seq<char>,
) -> (Seq<char>, bool) {
    (
        joined(filters_of(rel, rel.attributes@, labels, settings, policy), ", "@),
        any_masked(rel, rel.attributes@, labels, settings, policy),
    )
}

/// Returns the select list that masks the data of a relation in a policy, one
/// entry for each live column, and whether the relation has a masked column.
pub fn masking_expressions(
    rel: &Relation,
    labels: &LabelStore,
    settings: &Settings,
    policy: &str,
) -> (r: (String, bool))
    ensures
        r.0@ == masking_expressions_of(*rel, *labels, *settings, policy@).0,
        r.1 == masking_expressions_of(*rel, *labels, *settings, policy@).1,
{
    let mut table_has_one_masked_column = false;
    let mut expressions: Vec<String> = Vec::new();
    let mut i: usize = 0;
    while i < rel.attributes.len()
        invariant
            i <= rel.attributes.len(),
            views(expressions@) == filters_of(
                *rel,
                rel.attributes@.subrange(0, i as int),
                *labels,
                *settings,
                policy@,
            ),
            table_has_one_masked_column == any_masked(
                *rel,
                rel.attributes@.subrange(0, i as int),
                *labels,
                *settings,
                policy@,
            ),
        decreases rel.attributes.len() - i,
    {
        let a = &rel.attributes[i];
        let ghost before = rel.attributes@.subrange(0, i as int);
        let ghost after = rel.attributes@.subrange(0, i + 1);
        assert(after.drop_last() == before);
        if !a.dropped {
            let (filter_value, att_is_masked) = value_for_att(rel, a, labels, settings, policy);
            if att_is_masked {
                table_has_one_masked_column = true;
            }
            let mut filter = filter_value;
            filter.append(" AS ");
            filter.append(a.quoted_name.as_str());
            expressions.push(filter);
        }
        proof {
            lemma_any_masked_grows(*rel, after, *labels, *settings, policy@);
        }
        i += 1;
    }
    assert(rel.attributes@.subrange(0, i as int) == rel.attributes@);
    (join(&expressions, ", "), table_has_one_masked_column)
}

/// Returns the select list that masks the data of a relation in a policy.
pub fn masking_expressions_for_table(
    rel: &Relation,
    labels: &LabelStore,
    settings: &Settings,
    policy: &str,
) -> (r: String)
    ensures
        r@ == masking_expressions_of(*rel, *labels, *settings, policy@).0,
{
    let (masking_expressions, _) = masking_expressions(rel, labels, settings, policy);
    masking_expressions
}

/// The column that stands at position `colnum`, counted from 1, if there is
/// one and it was not dropped.
pub open spec fn live_column(rel: Relation, colnum: i32) -> Option<Attribute> {
    if 1 <= colnum <= rel.attributes@.len() && !rel.attributes@[colnum - 1].dropped {
        Some(rel.attributes@[colnum - 1])
    } else {
        None
    }
}

/// Returns the masking value of the column at position `colnum`, counted from
/// 1, and whether the column is masked. There is none for a position that
/// holds no column or a dropped one.
pub fn masking_value_for_column(
    rel: &Relation,
    colnum: i32,
    labels: &LabelStore,
    settings: &Settings,
    policy: &str,
) -> (r: Option<(String, bool)>)
    ensures
        match r {
            Some(value) => {
                &&& live_column(*rel, colnum) is Some
                &&& value.0@ == value_of_att(
                    *rel,
                    live_column(*rel, colnum)->0,
                    *labels,
                    *settings,
                    policy@,
                ).0
                &&& value.1 == value_of_att(
                    *rel,
                    live_column(*rel, colnum)->0,
                    *labels,
                    *settings,
                    policy@,
                ).1
            },
            None => live_column(*rel, colnum) is None,
        },
{
    if colnum < 1 || rel.attributes.len() < colnum as usize {
        return None;
    }
    let a = &rel.attributes[colnum as usize - 1];
    if a.dropped {
        return None;
    }
    Some(value_for_att(rel, a, labels, settings, policy))
}

/// The entry of a live column in the outer select list: a generated column
/// is computed anew from its expression, any other is named.
pub open spec fn generation_of(rel: Relation, att: Attribute) -> Seq<char> {
    match default_of(rel, att, true) {
        Some(expr) => expr + " AS "@ + att.quoted_name@,
        None => att.quoted_name@,
    }
}

/// The outer select-list entries of the live columns among `attributes`.
pub open spec fn generations_of(rel: Relation, attributes: Seq<Attribute>) -> Seq<Seq<char>>
    decreases attributes.len(),
{
    if attributes.len() == 0 {
        Seq::empty()
    } else if attributes.last().dropped {
        generations_of(rel, attributes.drop_last())
    } else {
        generations_of(rel, attributes.drop_last()).push(generation_of(rel, attributes.last()))
    }
}

/// Whether a live column among `attributes` has a generation expression.
pub open spec fn any_generated(rel: Relation, attributes: Seq<Attribute>) -> bool {
    exists|i: int|
        0 <= i < attributes.len() && !(#[trigger] attributes[i]).dropped && default_of(
            rel,
            attributes[i],
            true,
        ) is Some
}

/// The outer select list of a masking subquery: `*` where no column is
/// generated, else every live column, the generated ones by their
/// expression.
pub open spec fn generation_expressions_of(rel: Relation) -> Seq<char> {
    if any_generated(rel, rel.attributes@) {
        joined(generations_of(rel, rel.attributes@), ", "@)
    } else {
        "*"@
    }
}

/// Returns the select list that computes the generated columns of a relation
/// anew.
pub fn generation_expressions(rel: &Relation) -> (r: String)
    ensures
        r@ == generation_expressions_of(*rel),
{
    let mut table_has_one_generated_column = false;
    let mut expressions: Vec<String> = Vec::new();
    let mut i: usize = 0;
    while i < rel.attributes.len()
        invariant
            i <= rel.attributes.len(),
            views(expressions@) == generations_of(*rel, rel.attributes@.subrange(0, i as int)),
            table_has_one_generated_column == any_generated(
                *rel,
                rel.attributes@.subrange(0, i as int),
            ),
        decreases rel.attributes.len() - i,
    {
        let a = &rel.attributes[i];
        let ghost before = rel.attributes@.subrange(0, i as int);
        let ghost after = rel.attributes@.subrange(0, i + 1);
        assert(after.drop_last() == before);
        if !a.dropped {
            match default_for_att(rel, a, true) {
                Some(generation_expression) => {
                    table_has_one_generated_column = true;
                    let mut filter = generation_expression.to_owned();
                    filter.append(" AS ");
                    filter.append(a.quoted_name.as_str());
                    expressions.push(filter);
                },
                None => {
                    expressions.push(a.quoted_name.clone());
                },
            }
        }
        i += 1;
    }
    assert(rel.attributes@.subrange(0, i as int) == rel.attributes@);
    if table_has_one_generated_column {
        join(&expressions, ", ")
    } else {
        "*".to_owned()
    }
}

/// The MD5 digest of the UTF-8 bytes of `text`, written as 32 upper-case
/// hexadecimal digits.
pub uninterp spec fn md5_hex(text: Seq<char>) -> Seq<char>;

/// `Md5::digest` of the md-5 crate, formatted with `{:X}`: the digest of the
/// text's bytes in upper-case hexadecimal. The contract names that result and
/// claims nothing else of it.
#[verifier::external_body]
fn md5_upper_hex(text: &str) -> (r: String)
    ensures
        r@ == md5_hex(text@),
{
    format!("{:X}", Md5::digest(text))
}

/// The text of a masking subquery. The inner select masks the columns and
/// samples the rows; the outer one computes the generated columns anew from
/// the masked ones. `hash` makes the alias of the inner select.
pub open spec fn subquery_text(
    generations: Seq<char>,
    filters: Seq<char>,
    table: Seq<char>,
    ratio: Option<Seq<char>>,
    hash: Seq<char>,
) -> Seq<char> {
    "SELECT "@ + generations + " FROM (SELECT "@ + filters + " FROM "@ + table + match ratio {
        Some(method) => " TABLESAMPLE "@ + method,
        None => Seq::empty(),
    } + ") AS anon_alias_"@ + hash
}

/// Writes a masking subquery from its parts.
pub fn subquery_sql(
    generations: &str,
    filters: &str,
    table: &str,
    ratio: Option<&str>,
    hash: &str,
) -> (r: String)
    ensures
        r@ == subquery_text(
            generations@,
            filters@,
            table@,
            match ratio {
                Some(method) => Some(method@),
                None => None,
            },
            hash@,
        ),
{
    let mut r = String::from_str("SELECT ");
    r.append(generations);
    r.append(" FROM (SELECT ");
    r.append(filters);
    r.append(" FROM ");
    r.append(table);
    match ratio {
        Some(method) => {
            r.append(" TABLESAMPLE ");
            r.append(method);
        },
        None => {},
    }
    r.append(") AS anon_alias_");
    r.append(hash);
    r
}

/// The sampling method of an outcome, if it is one.
pub open spec fn method_of(ratio: Result<Seq<char>, Reason>) -> Option<Seq<char>> {
    match ratio {
        Ok(method) => Some(method),
        Err(_) => None,
    }
}

/// The masking subquery that stands for a relation in a policy. A relation
/// with no masked column and no sampling ratio has none, nor has one without
/// a full name.
pub open spec fn subquery_of(
    rel: Relation,
    catalog: Catalog,
    settings: Settings,
    policy: Seq<char>,
) -> Option<Seq<char>> {
    let expressions = masking_expressions_of(rel, catalog.labels, settings, policy);
    let ratio = ratio_of(catalog, rel.oid, policy);
    if !expressions.1 && ratio is Err {
        None
    } else {
        match qualified_name_of(rel) {
            Some(table) => Some(
                subquery_text(
                    generation_expressions_of(rel),
                    expressions.0,
                    table,
                    method_of(ratio),
                    md5_hex(table),
                ),
            ),
            None => None,
        }
    }
}

/// Prepares the SQL statement that replaces a relation for a masked role.
///
/// For a table `nba.player(name, height_cm, height_in)` whose `height_in` is
/// generated as `height_cm / 2.54`, whose `height_cm` is masked with the
/// function `pg_catalog.random(170,220)` and that is sampled with
/// `BERNOULLI(50)`, the subquery reads the table through
/// `SELECT name AS name, pg_catalog.random(170,220) AS height_cm, height_in AS
/// height_in FROM nba.player TABLESAMPLE BERNOULLI(50)` and selects from that
/// `name, height_cm, height_cm / 2.54 AS height_in`.
pub fn subquery(rel: &Relation, catalog: &Catalog, settings: &Settings, policy: &str) -> (r: Option<
    String,
>)
    ensures
        match r {
            Some(sql) => subquery_of(*rel, *catalog, *settings, policy@) == Some(sql@),
            None => subquery_of(*rel, *catalog, *settings, policy@) is None,
        },
{
    let (masking_expressions, table_is_masked) = masking_expressions(
        rel,
        &catalog.labels,
        settings,
        policy,
    );
    let ratio = get_ratio(catalog, rel.oid, policy);

    // With no mask and no sampling ratio, the relation needs no subquery.
    if !table_is_masked && ratio.is_err() {
        return None;
    }
    let gen_expressions = generation_expressions(rel);
    let tablename = match qualified_name(rel) {
        Some(tablename) => tablename,
        None => {
            return None;
        },
    };
    let tablesample: Option<&str> = match ratio {
        Ok(method) => Some(method),
        Err(_) => None,
    };
    // The alias of the inner select holds the hash of the relation's name, so
    // that two relations never share one.
    let tablename_hash = md5_upper_hex(tablename.as_str());
    Some(
        subquery_sql(
            gen_expressions.as_str(),
            masking_expressions.as_str(),
            tablename.as_str(),
            tablesample,
            tablename_hash.as_str(),
        ),
    )
}

/// A sampling ratio alone gives a relation its masking subquery: a relation
/// that has a full name and a sampling ratio is replaced even where none of
/// its columns is masked.
pub proof fn lemma_sampling_alone_substitutes(
    rel: Relation,
    catalog: Catalog,
    settings: Settings,
    policy: Seq<char>,
)
    requires
        ratio_of(catalog, rel.oid, policy) is Ok,
        qualified_name_of(rel) is Some,
    ensures
        subquery_of(rel, catalog, settings, policy) is Some,
{
}

/// A relation with no masked column and no sampling ratio has no masking
/// subquery.
pub proof fn lemma_unmasked_has_no_subquery(
    rel: Relation,
    catalog: Catalog,
    settings: Settings,
    policy: Seq<char>,
)
    requires
        ratio_of(catalog, rel.oid, policy) is Err,
        !masking_expressions_of(rel, catalog.labels, settings, policy).1,
    ensures
        subquery_of(rel, catalog, settings, policy) is None,
{
}

/// A masking subquery has one column for each live column of its relation,
/// in the inner select list as in the outer one, so that each of its columns
/// finds its number among the numbers of the live columns.
pub proof fn lemma_one_entry_for_each_live_column(
    rel: Relation,
    attributes: Seq<Attribute>,
    labels: LabelStore,
    settings: Settings,
    policy: Seq<char>,
)
    ensures
        filters_of(rel, attributes, labels, settings, policy).len() == live_numbers(
            attributes,
        ).len(),
        generations_of(rel, attributes).len() == live_numbers(attributes).len(),
    decreases attributes.len(),
{
    if attributes.len() > 0 {
        lemma_one_entry_for_each_live_column(
            rel,
            attributes.drop_last(),
            labels,
            settings,
            policy,
        );
    }
}

} // verus!
