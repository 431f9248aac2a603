//! A snapshot of what the engine reads from the database: the security
//! labels, and the relations, functions and schemas that a statement names.

use vstd::prelude::*;

verus! {

/// The identifier that names no object.
pub const INVALID_OID: u32 = 0;

/// The first identifier that a user's own object can get. Smaller ones belong
/// to the system catalog.
pub const FIRST_NORMAL_OBJECT_ID: u32 = 16384;

/// The class of functions.
pub const PROCEDURE_RELATION_ID: u32 = 1255;

/// The class of relations and, with a sub-identifier, of their columns.
pub const RELATION_RELATION_ID: u32 = 1259;

/// The class of roles.
pub const AUTH_ID_RELATION_ID: u32 = 1260;

/// The class of databases.
pub const DATABASE_RELATION_ID: u32 = 1262;

/// The class of schemas.
pub const NAMESPACE_RELATION_ID: u32 = 2615;

/// What the label store answers for an object in a policy. `sub_id` is the
/// column's number for a column and zero otherwise. `label` is the text of
/// the object's label, or nothing where the store could not be read for the
/// object. An object that has no label in the policy has no entry.
#[derive(Debug, PartialEq, Eq)]
pub struct SecurityLabel {
    pub class_id: u32,
    pub object_id: u32,
    pub sub_id: i32,
    pub policy: String,
    pub label: Option<String>,
}

impl SecurityLabel {
    /// Whether this is the answer for the given object in the given policy.
    pub open spec fn is_for(
        self,
        class_id: u32,
        object_id: u32,
        sub_id: i32,
        policy: Seq<char>,
    ) -> bool {
        &&& self.class_id == class_id
        &&& self.object_id == object_id
        &&& self.sub_id == sub_id
        &&& self.policy@ == policy
    }
}

/// The answers that were read for one statement. Where an object has two
/// answers in one policy, the first counts.
#[derive(Debug, PartialEq, Eq)]
pub struct LabelStore {
    pub labels: Vec<SecurityLabel>,
}

/// What is known of the label of an object in a policy.
pub enum Answer {
    /// The object carries this label.
    Label(Seq<char>),
    /// The object carries no label in the policy.
    NoLabel,
    /// The store could not be read for the object.
    NoObject,
}

/// The first answer for the object in the policy at or after position
/// `from`.
pub open spec fn answer_from(
    labels: Seq<SecurityLabel>,
    class_id: u32,
    object_id: u32,
    sub_id: i32,
    policy: Seq<char>,
    from: int,
) -> Answer
    decreases labels.len() - from,
{
    if from < 0 || from >= labels.len() {
        Answer::NoLabel
    } else if labels[from].is_for(class_id, object_id, sub_id, policy) {
        match labels[from].label {
            Some(text) => Answer::Label(text@),
            None => Answer::NoObject,
        }
    } else {
        answer_from(labels, class_id, object_id, sub_id, policy, from + 1)
    }
}

impl LabelStore {
    /// What is known of the label of the object in the policy.
    pub open spec fn answer_of(
        self,
        class_id: u32,
        object_id: u32,
        sub_id: i32,
        policy: Seq<char>,
    ) -> Answer {
        answer_from(self.labels@, class_id, object_id, sub_id, policy, 0)
    }

    /// The label of the object in the policy, if it is known to have one.
    pub open spec fn label_of(
        self,
        class_id: u32,
        object_id: u32,
        sub_id: i32,
        policy: Seq<char>,
    ) -> Option<Seq<char>> {
        match self.answer_of(class_id, object_id, sub_id, policy) {
            Answer::Label(text) => Some(text),
            _ => None,
        }
    }

    /// Looks up the answer for an object in a policy.
    pub fn find<'a>(&'a self, class_id: u32, object_id: u32, sub_id: i32, policy: &str) -> (r:
        Option<&'a SecurityLabel>)
        ensures
            match r {
                Some(entry) => self.answer_of(class_id, object_id, sub_id, policy@) == match
                    entry.label {
                    Some(text) => Answer::Label(text@),
                    None => Answer::NoObject,
                },
                None => self.answer_of(class_id, object_id, sub_id, policy@) == Answer::NoLabel,
            },
    {
        let mut i: usize = 0;
        while i < self.labels.len()
            invariant
                i <= self.labels.len(),
                self.answer_of(class_id, object_id, sub_id, policy@) == answer_from(
                    self.labels@,
                    class_id,
                    object_id,
                    sub_id,
                    policy@,
                    i as int,
                ),
            decreases self.labels.len() - i,
        {
            let l = &self.labels[i];
            if l.class_id == class_id && l.object_id == object_id && l.sub_id == sub_id
                && l.policy.as_str().eq(policy) {
                return Some(l);
            }
            i += 1;
        }
        None
    }

    /// Looks up the label of an object in a policy.
    pub fn get_label<'a>(
        &'a self,
        class_id: u32,
        object_id: u32,
        sub_id: i32,
        policy: &str,
    ) -> (r: Option<&'a str>)
        ensures
            match r {
                Some(text) => self.label_of(class_id, object_id, sub_id, policy@) == Some(text@),
                None => self.label_of(class_id, object_id, sub_id, policy@) is None,
            },
    {
        match self.find(class_id, object_id, sub_id, policy) {
            Some(entry) => match &entry.label {
                Some(text) => Some(text.as_str()),
                None => None,
            },
            None => None,
        }
    }
}

/// A column of a relation.
#[derive(Debug, PartialEq, Eq)]
pub struct Attribute {
    /// The column's name as the catalog holds it.
    pub name: String,
    /// The name as it is written in SQL, in double quotes where it needs them.
    pub quoted_name: String,
    /// The column's number in its relation, from 1 up. A dropped column keeps
    /// its number.
    pub attnum: i16,
    /// The column was dropped.
    pub dropped: bool,
    /// The column's declared type with its modifiers, as it is written in SQL.
    pub type_text: String,
    /// The column has a default value or a generation expression.
    pub has_default: bool,
    /// The column is generated from other columns.
    pub generated: bool,
}

/// The default value, or the generation expression, of the column with number
/// `adnum`, as SQL text.
#[derive(Debug, PartialEq, Eq)]
pub struct AttrDefault {
    pub adnum: i16,
    pub expr: String,
}

/// A relation with its columns, dropped ones included, in the order of their
/// numbers.
#[derive(Debug, PartialEq, Eq)]
pub struct Relation {
    pub oid: u32,
    /// The schema that holds the relation.
    pub namespace_id: u32,
    /// The schema's name as it is written in SQL, if the schema is known.
    pub quoted_namespace: Option<String>,
    /// The relation's name as it is written in SQL.
    pub quoted_name: String,
    pub attributes: Vec<Attribute>,
    pub defaults: Vec<AttrDefault>,
}

/// One definition of a function. A function may have several, with different
/// arguments.
#[derive(Debug, PartialEq, Eq)]
pub struct Function {
    pub oid: u32,
    pub name: String,
    pub namespace_id: u32,
}

/// A schema.
#[derive(Debug, PartialEq, Eq)]
pub struct Schema {
    pub oid: u32,
    pub name: String,
}

/// What one statement needs of the database.
#[derive(Debug, PartialEq, Eq)]
pub struct Catalog {
    /// The database that the statement runs in.
    pub database_id: u32,
    pub relations: Vec<Relation>,
    pub functions: Vec<Function>,
    pub schemas: Vec<Schema>,
    pub labels: LabelStore,
}

/// The position of the first relation with identifier `relid` at or after
/// `from`.
pub open spec fn relation_from(relations: Seq<Relation>, relid: u32, from: int) -> Option<int>
    decreases relations.len() - from,
{
    if from < 0 || from >= relations.len() {
        None
    } else if relations[from].oid == relid {
        Some(from)
    } else {
        relation_from(relations, relid, from + 1)
    }
}

/// The position of the first schema named `name` at or after `from`.
pub open spec fn schema_from(schemas: Seq<Schema>, name: Seq<char>, from: int) -> Option<int>
    decreases schemas.len() - from,
{
    if from < 0 || from >= schemas.len() {
        None
    } else if schemas[from].name@ == name {
        Some(from)
    } else {
        schema_from(schemas, name, from + 1)
    }
}

impl Relation {
    /// The columns stand in the order of their numbers, which count from 1
    /// and leave none out.
    pub open spec fn wf(self) -> bool {
        forall|i: int|
            0 <= i < self.attributes@.len() ==> (#[trigger] self.attributes@[i]).attnum == i + 1
    }

    /// Whether the relation is well formed.
    pub fn is_wf(&self) -> (r: bool)
        ensures
            r == self.wf(),
    {
        let mut i: usize = 0;
        while i < self.attributes.len()
            invariant
                i <= self.attributes.len(),
                forall|k: int| 0 <= k < i ==> (#[trigger] self.attributes@[k]).attnum == k + 1,
            decreases self.attributes.len() - i,
        {
            if i >= 32767 || self.attributes[i].attnum != (i + 1) as i16 {
                assert(self.attributes@[i as int].attnum != i + 1);
                return false;
            }
            i += 1;
        }
        true
    }
}

impl Catalog {
    /// Every function and schema has an identifier that names an object. A
    /// snapshot of a sound catalog is well formed; the engine answers for
    /// any snapshot.
    pub open spec fn wf(self) -> bool {
        &&& forall|i: int|
            0 <= i < self.functions@.len() ==> (#[trigger] self.functions@[i]).oid != INVALID_OID
        &&& forall|i: int|
            0 <= i < self.schemas@.len() ==> (#[trigger] self.schemas@[i]).oid != INVALID_OID
    }

    /// The relation with identifier `relid`, if the snapshot holds it.
    pub open spec fn relation_of(self, relid: u32) -> Option<Relation> {
        match relation_from(self.relations@, relid, 0) {
            Some(i) => Some(self.relations@[i]),
            None => None,
        }
    }

    /// The identifier of the schema named `name`, if the snapshot holds it.
    pub open spec fn schema_id_of(self, name: Seq<char>) -> Option<u32> {
        match schema_from(self.schemas@, name, 0) {
            Some(i) => Some(self.schemas@[i].oid),
            None => None,
        }
    }

    /// Whether the snapshot is well formed.
    pub fn is_wf(&self) -> (r: bool)
        ensures
            r == self.wf(),
    {
        let mut i: usize = 0;
        while i < self.functions.len()
            invariant
                i <= self.functions.len(),
                forall|k: int| 0 <= k < i ==> (#[trigger] self.functions@[k]).oid != INVALID_OID,
            decreases self.functions.len() - i,
        {
            if self.functions[i].oid == INVALID_OID {
                return false;
            }
            i += 1;
        }
        let mut j: usize = 0;
        while j < self.schemas.len()
            invariant
                j <= self.schemas.len(),
                forall|k: int|
                    0 <= k < self.functions@.len() ==> (#[trigger] self.functions@[k]).oid
                        != INVALID_OID,
                forall|k: int| 0 <= k < j ==> (#[trigger] self.schemas@[k]).oid != INVALID_OID,
            decreases self.schemas.len() - j,
        {
            if self.schemas[j].oid == INVALID_OID {
                return false;
            }
            j += 1;
        }
        true
    }

    /// Looks up a relation by its identifier.
    pub fn relation<'a>(&'a self, relid: u32) -> (r: Option<&'a Relation>)
        ensures
            match r {
                Some(rel) => self.relation_of(relid) == Some(*rel) && rel.oid == relid,
                None => self.relation_of(relid) is None,
            },
    {
        let mut i: usize = 0;
        while i < self.relations.len()
            invariant
                i <= self.relations.len(),
                relation_from(self.relations@, relid, 0) == relation_from(
                    self.relations@,
                    relid,
                    i as int,
                ),
            decreases self.relations.len() - i,
        {
            if self.relations[i].oid == relid {
                return Some(&self.relations[i]);
            }
            i += 1;
        }
        None
    }

    /// Looks up the identifier of a schema by its name.
    pub fn schema_id(&self, name: &str) -> (r: Option<u32>)
        ensures
            r == self.schema_id_of(name@),
    {
        let mut i: usize = 0;
        while i < self.schemas.len()
            invariant
                i <= self.schemas.len(),
                schema_from(self.schemas@, name@, 0) == schema_from(
                    self.schemas@,
                    name@,
                    i as int,
                ),
            decreases self.schemas.len() - i,
        {
            if self.schemas[i].name.as_str().eq(name) {
                return Some(self.schemas[i].oid);
            }
            i += 1;
        }
        None
    }
}

/// The relation that a lookup finds has the identifier that was asked for.
pub proof fn lemma_relation_of_has_oid(catalog: Catalog, relid: u32)
    ensures
        match catalog.relation_of(relid) {
            Some(rel) => rel.oid == relid,
            None => true,
        },
{
    lemma_relation_from_has_oid(catalog.relations@, relid, 0);
}

proof fn lemma_relation_from_has_oid(relations: Seq<Relation>, relid: u32, from: int)
    requires
        0 <= from,
    ensures
        match relation_from(relations, relid, from) {
            Some(i) => from <= i < relations.len() && relations[i].oid == relid,
            None => true,
        },
    decreases relations.len() - from,
{
    if from < relations.len() && relations[from].oid != relid {
        lemma_relation_from_has_oid(relations, relid, from + 1);
    }
}

/// The identifier that a well-formed snapshot gives for a schema names an
/// object.
pub proof fn lemma_schema_id_is_valid(catalog: Catalog, name: Seq<char>)
    requires
        catalog.wf(),
    ensures
        catalog.schema_id_of(name) != Some(INVALID_OID),
{
    lemma_schema_from_in_range(catalog, name, 0);
}

proof fn lemma_schema_from_in_range(catalog: Catalog, name: Seq<char>, from: int)
    requires
        0 <= from,
    ensures
        match schema_from(catalog.schemas@, name, from) {
            Some(i) => from <= i < catalog.schemas@.len(),
            None => true,
        },
    decreases catalog.schemas@.len() - from,
{
    if from < catalog.schemas@.len() && catalog.schemas@[from].name@ != name {
        lemma_schema_from_in_range(catalog, name, from + 1);
    }
}

} // verus!
