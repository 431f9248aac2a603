use anon::catalog::{
    AttrDefault, Attribute, Catalog, LabelStore, Relation, SecurityLabel, INVALID_OID,
    RELATION_RELATION_ID,
};
use anon::guc::Settings;
use anon::static_masking::{
    anonymize_column, anonymize_table, anonymize_table_with, assignment_sql, column_assignment,
    table_assignments, Plan,
};

const PERSON: u32 = 16400;
const USER: u32 = 16410;
const LOCATION: u32 = 16420;

fn column(name: &str, quoted_name: &str, attnum: i16, type_text: &str) -> Attribute {
    Attribute {
        name: name.to_string(),
        quoted_name: quoted_name.to_string(),
        attnum,
        dropped: false,
        type_text: type_text.to_string(),
        has_default: false,
        generated: false,
    }
}

fn table_person() -> Relation {
    let mut pronouns =
        column("........pg.dropped.1........", "\"........pg.dropped.1........\"", 1, "-");
    pronouns.dropped = true;
    Relation {
        oid: PERSON,
        namespace_id: 2200,
        quoted_namespace: Some("public".to_string()),
        quoted_name: "person".to_string(),
        attributes: vec![
            pronouns,
            column("firstname", "firstname", 2, "character varying(30)"),
            column("lastname", "lastname", 3, "text"),
        ],
        defaults: vec![],
    }
}

fn table_user() -> Relation {
    let mut email = column("Email", "\"Email\"", 1, "text");
    email.has_default = true;
    Relation {
        oid: USER,
        namespace_id: 2200,
        quoted_namespace: Some("public".to_string()),
        quoted_name: "\"User\"".to_string(),
        attributes: vec![email, column("login", "login", 2, "text"), column("age", "age", 3, "integer")],
        defaults: vec![AttrDefault { adnum: 1, expr: "'nobody'::text".to_string() }],
    }
}

fn table_location() -> Relation {
    Relation {
        oid: LOCATION,
        namespace_id: 16419,
        quoted_namespace: Some("\"Postal_Info\"".to_string()),
        quoted_name: "location".to_string(),
        attributes: vec![
            column("zipcode", "zipcode", 1, "character varying(5)"),
            column("city", "city", 2, "text"),
        ],
        defaults: vec![],
    }
}

fn label(object_id: u32, sub_id: i32, text: &str) -> SecurityLabel {
    SecurityLabel {
        class_id: RELATION_RELATION_ID,
        object_id,
        sub_id,
        policy: "anon".to_string(),
        label: Some(text.to_string()),
    }
}

fn catalog() -> Catalog {
    Catalog {
        database_id: 5,
        relations: vec![table_person(), table_user(), table_location()],
        functions: vec![],
        schemas: vec![],
        labels: LabelStore {
            labels: vec![
                label(PERSON, 3, "MASKED WITH VALUE NULL"),
                label(PERSON, 0, "TABLESAMPLE BERNOULLI(10)"),
                label(USER, 1, "MASKED WITH FUNCTION anon.fake_email()"),
                label(USER, 3, "MASKED WITH VALUE 0"),
            ],
        },
    }
}

#[test]
fn test_column_assignment() {
    let rel = table_person();
    let settings = Settings::new();
    assert_eq!(None, column_assignment(&rel, "firstname", &catalog().labels, &settings, "anon"));
    assert_eq!(
        Some("\"lastname\" = CAST(NULL AS text)".to_string()),
        column_assignment(&rel, "lastname", &catalog().labels, &settings, "anon")
    );
}

#[test]
fn test_assignment_sql() {
    assert_eq!(assignment_sql("\"a\"", "NULL"), "\"a\" = NULL");
}

#[test]
fn test_anonymize_column() {
    let rel = table_person();
    let first = anonymize_column(&rel, "firstname", &catalog(), &Settings::new(), "anon");
    assert_eq!(first.plan, Plan::NoRule);
    assert_eq!(first.plan.answer(), Some(false));
    let last = anonymize_column(&rel, "lastname", &catalog(), &Settings::new(), "anon");
    assert_eq!(
        last.plan,
        Plan::Run(
            "SET CONSTRAINTS ALL DEFERRED; UPDATE public.person SET \"lastname\" = CAST(NULL AS \
             text);"
                .to_string()
        )
    );
    assert_eq!(last.plan.answer(), Some(true));
    // The sampling rule of the table is left aside.
    assert!(first.sampling_ignored);
    assert!(last.sampling_ignored);
    let email = anonymize_column(&table_user(), "Email", &catalog(), &Settings::new(), "anon");
    assert!(!email.sampling_ignored);
    assert_eq!(
        email.plan,
        Plan::Run(
            "SET CONSTRAINTS ALL DEFERRED; UPDATE public.\"User\" SET \"Email\" = \
             CAST(anon.fake_email() AS text);"
                .to_string()
        )
    );
}

#[test]
fn test_anonymize_column_no_policy() {
    let rel = table_person();
    let settings = Settings::new();
    assert_eq!(
        Some(false),
        anonymize_column(&rel, "firstname", &catalog(), &settings, "does_not_exist").plan.answer()
    );
    assert_eq!(
        Some(false),
        anonymize_column(&rel, "lastname", &catalog(), &settings, "does_not_exist").plan.answer()
    );
}

#[test]
fn test_anonymize_column_does_not_exist() {
    let rel = table_person();
    let settings = Settings::new();
    assert_eq!(
        Some(false),
        anonymize_column(&rel, "does_not_exists", &catalog(), &settings, "anon").plan.answer()
    );
    assert_eq!(Some(false), anonymize_column(&rel, "", &catalog(), &settings, "anon").plan.answer());
    // A dropped column has no rule either.
    assert_eq!(
        Some(false),
        anonymize_column(&rel, "........pg.dropped.1........", &catalog(), &settings, "anon")
            .plan
            .answer()
    );
}

#[test]
fn test_anonymize_column_invalid_oid() {
    let mut rel = table_person();
    rel.oid = INVALID_OID;
    let plan = anonymize_column(&rel, "", &catalog(), &Settings::new(), "anon").plan;
    assert_eq!(plan, Plan::Nothing);
    assert_eq!(None, plan.answer());
}

#[test]
fn test_table_assignments() {
    let labels = catalog().labels;
    assert_eq!(
        table_assignments(&table_person(), &labels, &Settings::new(), "anon"),
        Some("\"lastname\" = CAST(NULL AS text)".to_string())
    );
    assert_eq!(
        table_assignments(&table_user(), &labels, &Settings::new(), "anon"),
        Some(
            "\"Email\" = CAST(anon.fake_email() AS text), \"age\" = CAST(0 AS integer)"
                .to_string()
        )
    );
    assert_eq!(table_assignments(&table_location(), &labels, &Settings::new(), "anon"), None);
    assert_eq!(table_assignments(&table_person(), &labels, &Settings::new(), "other"), None);
}

#[test]
fn test_table_and_column_assignments_name_a_column_alike() {
    // A column whose name needs quotes is quoted once, by either path.
    let labels = catalog().labels;
    let by_column = column_assignment(&table_user(), "Email", &labels, &Settings::new(), "anon");
    assert_eq!(by_column, Some("\"Email\" = CAST(anon.fake_email() AS text)".to_string()));
    let by_table = table_assignments(&table_user(), &labels, &Settings::new(), "anon").unwrap();
    assert!(by_table.starts_with(&by_column.unwrap()));
    // The name is taken as the catalog holds it, whatever it is quoted as.
    let mut odd = table_person();
    odd.attributes[2].quoted_name = "\"lastname\"".to_string();
    assert_eq!(
        table_assignments(&odd, &labels, &Settings::new(), "anon"),
        Some("\"lastname\" = CAST(NULL AS text)".to_string())
    );
}

#[test]
fn test_anonymize_table() {
    // The table has a sampling rule: it is rewritten from its masking
    // subquery.
    let plan = anonymize_table(&table_person(), &catalog(), &Settings::new(), "anon");
    assert_eq!(plan.answer(), Some(true));
    match plan {
        Plan::Run(sql) => {
            assert!(sql.starts_with("CREATE TEMPORARY TABLE anon_swap_16400_"));
            assert!(sql.contains(
                " AS SELECT * FROM (SELECT firstname AS firstname, CAST(NULL AS text) AS \
                 lastname FROM public.person TABLESAMPLE BERNOULLI(10)) AS \
                 anon_alias_1BCE2663E859B80E5E08B895DFC0F6C2; TRUNCATE TABLE public.person; \
                 INSERT INTO public.person SELECT * FROM anon_swap_16400_"
            ));
            assert!(sql.ends_with(";"));
            let suffix: String = sql["CREATE TEMPORARY TABLE anon_swap_16400_".len()..]
                .chars()
                .take_while(|c| c.is_ascii_digit())
                .collect();
            assert!(suffix.parse::<u32>().is_ok());
            assert!(sql.ends_with(&format!("; DROP TABLE anon_swap_16400_{suffix};")));
        }
        _ => panic!("the table has rules"),
    }
}

#[test]
fn test_anonymize_table_with() {
    assert_eq!(
        anonymize_table_with(&table_person(), &catalog(), &Settings::new(), "anon", 4294967295),
        Plan::Run(
            "CREATE TEMPORARY TABLE anon_swap_16400_4294967295 AS SELECT * FROM (SELECT \
             firstname AS firstname, CAST(NULL AS text) AS lastname FROM public.person \
             TABLESAMPLE BERNOULLI(10)) AS anon_alias_1BCE2663E859B80E5E08B895DFC0F6C2; \
             TRUNCATE TABLE public.person; INSERT INTO public.person SELECT * FROM \
             anon_swap_16400_4294967295; DROP TABLE anon_swap_16400_4294967295;"
                .to_string()
        )
    );
    // Without a sampling rule, one update masks the masked columns.
    assert_eq!(
        anonymize_table_with(&table_user(), &catalog(), &Settings::new(), "anon", 0),
        Plan::Run(
            "UPDATE public.\"User\" SET \"Email\" = CAST(anon.fake_email() AS text), \
             \"age\" = CAST(0 AS integer)"
                .to_string()
        )
    );
}

#[test]
fn test_anonymize_table_does_not_exist() {
    let mut rel = table_person();
    rel.oid = INVALID_OID;
    assert_eq!(None, anonymize_table(&rel, &catalog(), &Settings::new(), "anon").answer());
}

#[test]
fn test_anonymize_table_no_policy() {
    let plan = anonymize_table(&table_person(), &catalog(), &Settings::new(), "does_not_exist");
    assert_eq!(plan, Plan::NoRule);
    assert_eq!(Some(false), plan.answer());
}

#[test]
fn test_anonymize_table_no_rules() {
    let plan = anonymize_table(&table_location(), &catalog(), &Settings::new(), "anon");
    assert_eq!(plan, Plan::NoRule);
    assert_eq!(Some(false), plan.answer());
}

#[test]
fn test_anonymize_table_privacy_by_default() {
    let mut settings = Settings::new();
    settings.privacy_by_default = true;
    assert_eq!(
        anonymize_table_with(&table_location(), &catalog(), &settings, "anon", 1),
        Plan::Run(
            "UPDATE \"Postal_Info\".location SET \"zipcode\" = NULL, \"city\" = NULL".to_string()
        )
    );
}
