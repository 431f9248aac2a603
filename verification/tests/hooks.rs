use anon::catalog::{
    Attribute, Catalog, LabelStore, Relation, SecurityLabel, AUTH_ID_RELATION_ID,
    RELATION_RELATION_ID,
};
use anon::error::ErrorCode;
use anon::guc::Settings;
use anon::hooks::{dynamic_policy, masks_dynamically, pa_rewrite_utility, AnonHooks, UtilityStmt};
use anon::nodes::{Node, QuerySource, RteKind};

const PERSON: u32 = 16400;
const BATMAN: u32 = 16500;
const BRUCE: u32 = 16501;

fn column(name: &str, attnum: i16, type_text: &str) -> Attribute {
    Attribute {
        name: name.to_string(),
        quoted_name: name.to_string(),
        attnum,
        dropped: false,
        type_text: type_text.to_string(),
        has_default: false,
        generated: false,
    }
}

fn catalog() -> Catalog {
    Catalog {
        database_id: 5,
        relations: vec![
            Relation {
                oid: PERSON,
                namespace_id: 2200,
                quoted_namespace: Some("public".to_string()),
                quoted_name: "person".to_string(),
                attributes: vec![column("firstname", 1, "text"), column("lastname", 2, "text")],
                defaults: vec![],
            },
            Relation {
                oid: 16401,
                namespace_id: 0,
                quoted_namespace: None,
                quoted_name: "orphan".to_string(),
                attributes: vec![],
                defaults: vec![],
            },
        ],
        functions: vec![],
        schemas: vec![],
        labels: LabelStore {
            labels: vec![
                SecurityLabel {
                    class_id: RELATION_RELATION_ID,
                    object_id: PERSON,
                    sub_id: 2,
                    policy: "anon".to_string(),
                    label: Some("MASKED WITH VALUE NULL".to_string()),
                },
                SecurityLabel {
                    class_id: AUTH_ID_RELATION_ID,
                    object_id: BATMAN,
                    sub_id: 0,
                    policy: "anon".to_string(),
                    label: Some("MASKED".to_string()),
                },
            ],
        },
    }
}

fn copy(is_from: bool, relation: Option<u32>, attlist: &[&str]) -> UtilityStmt {
    UtilityStmt::Copy {
        is_from,
        relation,
        attlist: attlist.iter().map(|a| a.to_string()).collect(),
        query: None,
    }
}

fn dynamic_masking() -> Settings {
    let mut settings = Settings::new();
    settings.transparent_dynamic_masking = true;
    settings
}

fn select_person() -> Node {
    Node::Query {
        query_source: QuerySource::Original,
        sql: None,
        resnos: vec![],
        children: vec![Node::RangeTblEntry {
            rtekind: RteKind::Relation,
            relid: PERSON,
            relkind: 114,
            perminfoindex: 1,
            inh: true,
            children: vec![],
        }],
    }
}

#[test]
fn test_rewrite_utility_copy() {
    assert_eq!(
        pa_rewrite_utility(&copy(false, Some(PERSON), &[]), &catalog()),
        Ok(UtilityStmt::Copy {
            is_from: false,
            relation: None,
            attlist: vec![],
            query: Some("SELECT * FROM public.person".to_string()),
        })
    );
    assert_eq!(
        pa_rewrite_utility(&copy(false, Some(PERSON), &["lastname", "firstname"]), &catalog()),
        Ok(UtilityStmt::Copy {
            is_from: false,
            relation: None,
            attlist: vec![],
            query: Some("SELECT lastname,firstname FROM public.person".to_string()),
        })
    );
}

#[test]
fn test_rewrite_utility_leaves_other_statements() {
    // COPY FROM.
    assert_eq!(
        pa_rewrite_utility(&copy(true, Some(PERSON), &["lastname"]), &catalog()),
        Ok(copy(true, Some(PERSON), &["lastname"]))
    );
    // COPY of a query.
    assert_eq!(pa_rewrite_utility(&copy(false, None, &[]), &catalog()), Ok(copy(false, None, &[])));
    // A relation whose name cannot be had.
    assert_eq!(
        pa_rewrite_utility(&copy(false, Some(16401), &[]), &catalog()),
        Ok(copy(false, Some(16401), &[]))
    );
    assert_eq!(
        pa_rewrite_utility(&copy(false, Some(99999), &[]), &catalog()),
        Ok(copy(false, Some(99999), &[]))
    );
    assert_eq!(pa_rewrite_utility(&UtilityStmt::Other, &catalog()), Ok(UtilityStmt::Other));
}

#[test]
fn test_rewrite_utility_refuses_explain_and_truncate() {
    for stmt in [UtilityStmt::Explain, UtilityStmt::Truncate] {
        let error = pa_rewrite_utility(&stmt, &catalog()).unwrap_err();
        assert_eq!(error.error_code, ErrorCode::InsufficientPrivilege);
        assert_eq!(error.message, "role is masked");
    }
}

#[test]
fn test_process_utility_hook() {
    let hooks = AnonHooks {};
    let stmt = copy(false, Some(PERSON), &[]);
    let masked = hooks.process_utility_hook(&stmt, true, BATMAN, &catalog(), &dynamic_masking());
    assert_eq!(
        masked,
        Ok(UtilityStmt::Copy {
            is_from: false,
            relation: None,
            attlist: vec![],
            query: Some("SELECT * FROM public.person".to_string()),
        })
    );
    assert!(hooks
        .process_utility_hook(&UtilityStmt::Explain, true, BATMAN, &catalog(), &dynamic_masking())
        .is_err());
    // A role that is not masked.
    assert_eq!(
        hooks.process_utility_hook(&stmt, true, BRUCE, &catalog(), &dynamic_masking()),
        Ok(copy(false, Some(PERSON), &[]))
    );
    assert_eq!(
        hooks.process_utility_hook(
            &UtilityStmt::Truncate,
            true,
            BRUCE,
            &catalog(),
            &dynamic_masking()
        ),
        Ok(UtilityStmt::Truncate)
    );
    // Dynamic masking is off.
    assert_eq!(
        hooks.process_utility_hook(&stmt, true, BATMAN, &catalog(), &Settings::new()),
        Ok(copy(false, Some(PERSON), &[]))
    );
    // Outside a transaction.
    assert_eq!(
        hooks.process_utility_hook(&stmt, false, BATMAN, &catalog(), &dynamic_masking()),
        Ok(copy(false, Some(PERSON), &[]))
    );
}

#[test]
fn test_post_parse_analyze() {
    let hooks = AnonHooks {};
    let masked = hooks
        .post_parse_analyze(&select_person(), true, BATMAN, &catalog(), &dynamic_masking())
        .unwrap();
    assert_ne!(masked, select_person());
    assert!(format!("{masked:?}").contains(
        "SELECT * FROM (SELECT firstname AS firstname, CAST(NULL AS text) AS lastname FROM \
         public.person) AS anon_alias_1BCE2663E859B80E5E08B895DFC0F6C2"
    ));
    for (in_transaction, role, settings) in [
        (true, BRUCE, dynamic_masking()),
        (true, BATMAN, Settings::new()),
        (false, BATMAN, dynamic_masking()),
    ] {
        assert_eq!(
            hooks.post_parse_analyze(&select_person(), in_transaction, role, &catalog(), &settings),
            Ok(select_person())
        );
    }
}

#[test]
fn test_dynamic_policy() {
    assert!(masks_dynamically(&dynamic_masking(), true));
    assert!(!masks_dynamically(&dynamic_masking(), false));
    assert!(!masks_dynamically(&Settings::new(), true));
    assert_eq!(
        dynamic_policy(&catalog(), &dynamic_masking(), true, BATMAN),
        Some("anon".to_string())
    );
    assert_eq!(dynamic_policy(&catalog(), &dynamic_masking(), true, BRUCE), None);
    assert_eq!(dynamic_policy(&catalog(), &dynamic_masking(), false, BATMAN), None);
    assert_eq!(dynamic_policy(&catalog(), &Settings::new(), true, BATMAN), None);
}
