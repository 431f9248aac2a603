use anon::catalog::{
    Attribute, Catalog, LabelStore, Relation, Schema, SecurityLabel, DATABASE_RELATION_ID,
    RELATION_RELATION_ID,
};
use anon::error::ErrorCode;
use anon::guc::Settings;
use anon::masking::subquery;
use anon::nodes::{clone_node, Node, QuerySource, RteKind};
use anon::walker::{rewrite_walker, TreeWalker};

const PERSON: u32 = 16400;
const LOCATION: u32 = 16420;
const CALL: u32 = 16450;
const LAST_NAME: u32 = 16395;
const ANON: u32 = 16390;

fn column(name: &str, attnum: i16, type_text: &str, dropped: bool) -> Attribute {
    Attribute {
        name: name.to_string(),
        quoted_name: name.to_string(),
        attnum,
        dropped,
        type_text: type_text.to_string(),
        has_default: false,
        generated: false,
    }
}

fn relation(oid: u32, namespace_id: u32, schema: &str, name: &str, attributes: Vec<Attribute>) -> Relation {
    Relation {
        oid,
        namespace_id,
        quoted_namespace: Some(schema.to_string()),
        quoted_name: name.to_string(),
        attributes,
        defaults: vec![],
    }
}

fn label(object_id: u32, sub_id: i32, text: &str) -> SecurityLabel {
    SecurityLabel {
        class_id: RELATION_RELATION_ID,
        object_id,
        sub_id,
        policy: "anon".to_string(),
        label: Some(text.to_string()),
    }
}

// `person` is masked and has a dropped column, `location` has a sampling rule
// and nothing else, `call` has no rule, and `anon.last_name` lies in the
// engine's own schema.
fn catalog() -> Catalog {
    Catalog {
        database_id: 5,
        relations: vec![
            relation(
                PERSON,
                2200,
                "public",
                "person",
                vec![
                    column("........pg.dropped.1........", 1, "-", true),
                    column("firstname", 2, "character varying(30)", false),
                    column("lastname", 3, "text", false),
                ],
            ),
            relation(
                LOCATION,
                16419,
                "\"Postal_Info\"",
                "location",
                vec![
                    column("zipcode", 1, "character varying(5)", false),
                    column("city", 2, "text", false),
                ],
            ),
            relation(
                CALL,
                2200,
                "public",
                "call",
                vec![
                    column("sender", 1, "text", false),
                    column("receiver", 2, "text", false),
                    column("day", 3, "date", false),
                    column("........pg.dropped.4........", 4, "-", true),
                ],
            ),
            relation(LAST_NAME, ANON, "anon", "last_name", vec![column("val", 1, "text", false)]),
        ],
        functions: vec![],
        schemas: vec![Schema { oid: ANON, name: "anon".to_string() }],
        labels: LabelStore {
            labels: vec![
                label(PERSON, 3, "MASKED WITH VALUE NULL"),
                label(LOCATION, 0, "TABLESAMPLE BERNOULLI(10)"),
                label(LAST_NAME, 1, "MASKED WITH VALUE NULL"),
                label(1259, 1, "MASKED WITH VALUE NULL"),
            ],
        },
    }
}

fn rte(relid: u32) -> Node {
    Node::RangeTblEntry {
        rtekind: RteKind::Relation,
        relid,
        relkind: 114,
        perminfoindex: 1,
        inh: true,
        children: vec![],
    }
}

fn query(children: Vec<Node>) -> Node {
    Node::Query { query_source: QuerySource::Original, sql: None, resnos: vec![], children }
}

fn masking_rte(relid: u32, resnos: Vec<i16>) -> Node {
    let catalog = catalog();
    let rel = catalog.relation(relid).unwrap();
    Node::RangeTblEntry {
        rtekind: RteKind::Subquery,
        relid: 0,
        relkind: 0,
        perminfoindex: 0,
        inh: false,
        children: vec![Node::Query {
            query_source: QuerySource::Parser,
            sql: Some(subquery(rel, &catalog, &Settings::new(), "anon").unwrap()),
            resnos,
            children: vec![],
        }],
    }
}

fn rewrite(query: &Node) -> Result<Node, anon::error::AnonError> {
    TreeWalker::new("anon".to_string()).rewrite(query, &catalog(), &Settings::new())
}

#[test]
fn test_rewrite_masks_a_relation() {
    let statement = query(vec![Node::Other { children: vec![] }, rte(PERSON)]);
    let rewritten = rewrite(&statement).unwrap();
    // The columns of the subquery get the numbers of the table's columns,
    // with the gap that the dropped column left.
    assert_eq!(
        rewritten,
        query(vec![Node::Other { children: vec![] }, masking_rte(PERSON, vec![2, 3])])
    );
    match &rewritten {
        Node::Query { children, .. } => match &children[1] {
            Node::RangeTblEntry { children, .. } => match &children[0] {
                Node::Query { sql, .. } => assert_eq!(
                    sql.as_deref(),
                    Some(
                        "SELECT * FROM (SELECT firstname AS firstname, CAST(NULL AS text) AS \
                         lastname FROM public.person) AS \
                         anon_alias_1BCE2663E859B80E5E08B895DFC0F6C2"
                    )
                ),
                _ => panic!("the entry holds a query"),
            },
            _ => panic!("the entry stays an entry"),
        },
        _ => panic!("the query stays a query"),
    }
}

#[test]
fn test_rewrite_leaves_unmasked_tables() {
    let statement = query(vec![
        Node::Other { children: vec![Node::Other { children: vec![] }] },
        rte(CALL),
        // A relation of the system catalog, whatever its labels.
        rte(1259),
        // A relation of the engine's own schema, whatever its labels.
        rte(LAST_NAME),
        // An entry that reads no relation.
        Node::RangeTblEntry {
            rtekind: RteKind::Subquery,
            relid: 0,
            relkind: 0,
            perminfoindex: 0,
            inh: false,
            children: vec![query(vec![rte(CALL)])],
        },
    ]);
    assert_eq!(rewrite(&statement), Ok(clone_node(&statement)));
    // Under a policy that has no rule, nothing is masked.
    let statement = query(vec![rte(PERSON), rte(LOCATION)]);
    assert_eq!(
        TreeWalker::new("does_not_exist".to_string()).rewrite(
            &statement,
            &catalog(),
            &Settings::new()
        ),
        Ok(clone_node(&statement))
    );
}

#[test]
fn test_rewrite_samples_a_table_without_masked_column() {
    let statement = query(vec![rte(LOCATION)]);
    let rewritten = rewrite(&statement).unwrap();
    assert_eq!(rewritten, query(vec![masking_rte(LOCATION, vec![1, 2])]));
    assert!(format!("{rewritten:?}").contains("TABLESAMPLE BERNOULLI(10)"));
}

#[test]
fn test_rewrite_follows_the_database_ratio() {
    let mut catalog = catalog();
    catalog.labels.labels.push(SecurityLabel {
        class_id: DATABASE_RELATION_ID,
        object_id: 5,
        sub_id: 0,
        policy: "anon".to_string(),
        label: Some("TABLESAMPLE SYSTEM(33)".to_string()),
    });
    let statement = query(vec![rte(CALL)]);
    let rewritten =
        TreeWalker::new("anon".to_string()).rewrite(&statement, &catalog, &Settings::new());
    assert!(format!("{rewritten:?}").contains("FROM public.call TABLESAMPLE SYSTEM(33)"));
    assert!(format!("{rewritten:?}").contains("resnos: [1, 2, 3]"));
}

#[test]
fn test_rewrite_goes_into_subqueries() {
    let statement = query(vec![
        // A subquery in an expression.
        Node::Other { children: vec![query(vec![rte(PERSON)])] },
        // A subquery in the range table.
        Node::RangeTblEntry {
            rtekind: RteKind::Subquery,
            relid: 0,
            relkind: 0,
            perminfoindex: 0,
            inh: false,
            children: vec![query(vec![rte(LOCATION), rte(CALL)])],
        },
    ]);
    assert_eq!(
        rewrite(&statement),
        Ok(query(vec![
            Node::Other { children: vec![query(vec![masking_rte(PERSON, vec![2, 3])])] },
            Node::RangeTblEntry {
                rtekind: RteKind::Subquery,
                relid: 0,
                relkind: 0,
                perminfoindex: 0,
                inh: false,
                children: vec![query(vec![masking_rte(LOCATION, vec![1, 2]), rte(CALL)])],
            },
        ]))
    );
}

#[test]
fn test_rewrite_twice_is_rewrite_once() {
    let statement = query(vec![
        Node::Other { children: vec![query(vec![rte(PERSON)])] },
        rte(LOCATION),
        rte(CALL),
        rte(PERSON),
    ]);
    let once = rewrite(&statement).unwrap();
    assert_ne!(once, statement);
    let twice = rewrite(&once).unwrap();
    assert_eq!(once, twice);
}

#[test]
fn test_rewrite_does_not_enter_a_marked_query() {
    // Whatever a query with the engine's mark holds, it stays.
    let marked = Node::Query {
        query_source: QuerySource::Parser,
        sql: None,
        resnos: vec![],
        children: vec![rte(PERSON), Node::DeleteStmt],
    };
    let statement = query(vec![Node::Other { children: vec![clone_node(&marked)] }]);
    assert_eq!(rewrite(&statement), Ok(clone_node(&statement)));
    // The top query is walked whatever its mark.
    let top = Node::Query {
        query_source: QuerySource::Parser,
        sql: None,
        resnos: vec![],
        children: vec![rte(PERSON)],
    };
    assert_eq!(
        rewrite(&top),
        Ok(Node::Query {
            query_source: QuerySource::Parser,
            sql: None,
            resnos: vec![],
            children: vec![masking_rte(PERSON, vec![2, 3])],
        })
    );
}

#[test]
fn test_rewrite_refuses_statements_that_change_data() {
    for node in [
        Node::InsertStmt,
        Node::DeleteStmt,
        Node::UpdateStmt,
        Node::TruncateStmt,
        Node::CreateStmt,
        Node::DropStmt,
        Node::SecLabelStmt,
    ] {
        let statement = query(vec![rte(CALL), Node::Other { children: vec![node] }]);
        let error = rewrite(&statement).unwrap_err();
        assert_eq!(error.error_code, ErrorCode::InsufficientPrivilege);
        assert_eq!(error.message, "role is masked");
        assert_eq!(error.detail, None);
        assert_eq!(error.report_message(), "Anon: role is masked");
    }
    assert!(rewrite(&Node::InsertStmt).is_err());
}

#[test]
fn test_rewrite_of_an_unknown_relation() {
    let statement = query(vec![rte(PERSON), rte(99999)]);
    let error = rewrite(&statement).unwrap_err();
    assert_eq!(error.error_code, ErrorCode::InternalError);
    assert_eq!(error.message, "could not open relation");
    assert_eq!(error.detail.as_deref(), Some("This is probably a bug, please report it."));
}

#[test]
fn test_rewrite_keeps_what_it_does_not_mask() {
    let statement = query(vec![
        Node::RangeTblEntry {
            rtekind: RteKind::Join,
            relid: 0,
            relkind: 0,
            perminfoindex: 0,
            inh: false,
            children: vec![Node::Other { children: vec![] }],
        },
        Node::RangeTblEntry {
            rtekind: RteKind::Relation,
            relid: CALL,
            relkind: 114,
            perminfoindex: 7,
            inh: true,
            children: vec![Node::Other { children: vec![] }],
        },
    ]);
    assert_eq!(rewrite(&statement), Ok(clone_node(&statement)));
    assert_eq!(rewrite(&rte(CALL)), Ok(rte(CALL)));
    assert_eq!(rewrite(&rte(PERSON)), Ok(masking_rte(PERSON, vec![2, 3])));
}

#[test]
fn test_rewrite_walker() {
    let walker = TreeWalker::new("anon".to_string());
    let walk = |node: &Node| rewrite_walker(node, &walker, &catalog(), &Settings::new());
    // A query with the engine's mark comes back as it is, whatever it holds:
    // nothing in it is visited.
    let marked = Node::Query {
        query_source: QuerySource::Parser,
        sql: Some("SELECT 1".to_string()),
        resnos: vec![1],
        children: vec![rte(PERSON), rte(99999), Node::DropStmt],
    };
    assert_eq!(walk(&marked), Ok(clone_node(&marked)));
    // A query without the mark is walked.
    assert_eq!(walk(&query(vec![rte(PERSON)])), Ok(query(vec![masking_rte(PERSON, vec![2, 3])])));
    // The entry of a table that has a sampling rule and no masked column is
    // replaced all the same.
    match walk(&rte(LOCATION)).unwrap() {
        Node::RangeTblEntry { rtekind, relid, relkind, perminfoindex, inh, children } => {
            assert_eq!(rtekind, RteKind::Subquery);
            assert_eq!((relid, relkind, perminfoindex, inh), (0, 0, 0, false));
            assert_eq!(
                children,
                vec![Node::Query {
                    query_source: QuerySource::Parser,
                    sql: Some(
                        "SELECT * FROM (SELECT zipcode AS zipcode, city AS city FROM \
                         \"Postal_Info\".location TABLESAMPLE BERNOULLI(10)) AS \
                         anon_alias_1A16D9D779230EF87D55217A510071E6"
                            .to_string()
                    ),
                    resnos: vec![1, 2],
                    children: vec![],
                }]
            );
        }
        _ => panic!("the entry stays an entry"),
    }
    assert!(walk(&Node::UpdateStmt).is_err());
}
