use anon::catalog::{
    Catalog, Function, LabelStore, Schema, SecurityLabel, NAMESPACE_RELATION_ID,
    PROCEDURE_RELATION_ID,
};
use anon::guc::Settings;
use anon::input::{
    check_function, check_tablesample, check_value, classify_function, expression_query,
    is_trusted_function, is_trusted_namespace, parse_expression, tablesample_query,
    verify_function, Reason, TrustState,
};
use anon::nodes::{Expr, SelectStmt};
use anon::walker::{check_call, is_untrusted_walker, TreeWalker};

const ANON: u32 = 16390;
const OUTFIT: u32 = 16600;
const PUBLIC: u32 = 2200;
const PG_CATALOG: u32 = 11;
const GOTHAM: u32 = 16610;
const ARKHAM: u32 = 16611;

fn function(oid: u32, name: &str, namespace_id: u32) -> Function {
    Function { oid, name: name.to_string(), namespace_id }
}

fn schema(oid: u32, name: &str) -> Schema {
    Schema { oid, name: name.to_string() }
}

fn label(class_id: u32, object_id: u32, text: &str) -> SecurityLabel {
    SecurityLabel {
        class_id,
        object_id,
        sub_id: 0,
        policy: "anon".to_string(),
        label: Some(text.to_string()),
    }
}

// The functions `outfit.mask` (three definitions, two of them trusted),
// `outfit.belt` (untrusted), `public.belt` (trusted) and `outfit.cape` (no
// label), beside the engine's own trusted schema.
fn masking_functions() -> Catalog {
    Catalog {
        database_id: 5,
        relations: vec![],
        functions: vec![
            function(16601, "mask", OUTFIT),
            function(16602, "mask", OUTFIT),
            function(16603, "mask", OUTFIT),
            function(16604, "belt", OUTFIT),
            function(16605, "belt", PUBLIC),
            function(16606, "cape", OUTFIT),
            function(16391, "lower", ANON),
            function(16392, "upper", ANON),
            function(2625, "pg_ls_dir", PG_CATALOG),
        ],
        schemas: vec![
            schema(ANON, "anon"),
            schema(OUTFIT, "outfit"),
            schema(PUBLIC, "public"),
            schema(PG_CATALOG, "pg_catalog"),
            schema(GOTHAM, "gotham"),
            schema(ARKHAM, "arkham"),
        ],
        labels: LabelStore {
            labels: vec![
                label(PROCEDURE_RELATION_ID, 16601, "TRUSTED"),
                label(PROCEDURE_RELATION_ID, 16602, "TRUSTED"),
                label(PROCEDURE_RELATION_ID, 16604, "UNTRUSTED"),
                label(PROCEDURE_RELATION_ID, 16605, "TRUSTED"),
                label(PROCEDURE_RELATION_ID, 2625, "UNTRUSTED"),
                label(NAMESPACE_RELATION_ID, ANON, "TRUSTED"),
                label(NAMESPACE_RELATION_ID, GOTHAM, "TRUSTED"),
            ],
        },
    }
}

fn trust_outfit(catalog: &mut Catalog) {
    catalog.labels.labels.push(label(NAMESPACE_RELATION_ID, OUTFIT, "TRUSTED"));
}

fn call(name: &[&str], args: Vec<Expr>) -> Expr {
    Expr::FuncCall { funcname: name.iter().map(|s| s.to_string()).collect(), args }
}

fn one(expr: Expr) -> Option<Vec<SelectStmt>> {
    Some(vec![SelectStmt { target_list: vec![expr] }])
}

fn check(expr: &str, tree: Option<Vec<SelectStmt>>, catalog: &Catalog) -> Result<(), String> {
    check_function(expr, tree.as_ref(), "anon", &Settings::new(), catalog)
}

#[test]
fn test_check_function_ok() {
    let catalog = masking_functions();
    assert!(catalog.is_wf());
    assert!(check("anon.lower('A')", one(call(&["anon", "lower"], vec![Expr::Const])), &catalog)
        .is_ok());
    assert!(check(
        "anon.lower(anon.upper('a'))",
        one(call(&["anon", "lower"], vec![call(&["anon", "upper"], vec![Expr::Const])])),
        &catalog
    )
    .is_ok());
    assert!(check("outfit.mask(0)", one(call(&["outfit", "mask"], vec![Expr::Const])), &catalog)
        .is_ok());
}

#[test]
fn test_check_function_err() {
    let catalog = masking_functions();
    assert_eq!(
        check("foo()", one(call(&["foo"], vec![])), &catalog),
        Err("foo() is not qualified".to_string())
    );
    assert_eq!(
        check(
            "public.foo(bar())",
            one(call(&["public", "foo"], vec![call(&["bar"], vec![])])),
            &catalog
        ),
        Err("public.foo(bar()) does not belong in a TRUSTED schema".to_string())
    );
    assert_eq!(
        check(
            "pg_catalog.does_not_exist()",
            one(call(&["pg_catalog", "does_not_exist"], vec![])),
            &catalog
        ),
        Err("pg_catalog.does_not_exist() does not belong in a TRUSTED schema".to_string())
    );
    assert_eq!(
        check("pg_catalog.pg_ls_dir('/)", None, &catalog),
        Err("pg_catalog.pg_ls_dir('/) is not a valid function call".to_string())
    );
    assert_eq!(
        check(
            "anon.lower(pg_catalog.pg_ls_dir())",
            one(call(&["anon", "lower"], vec![call(&["pg_catalog", "pg_ls_dir"], vec![])])),
            &catalog
        ),
        Err("anon.lower(pg_catalog.pg_ls_dir()) is UNTRUSTED".to_string())
    );
    assert_eq!(
        check("outfit.belt()", one(call(&["outfit", "belt"], vec![])), &catalog),
        Err("outfit.belt() is UNTRUSTED".to_string())
    );
    assert_eq!(check("", None, &catalog), Err(" is not a valid function call".to_string()));
    assert_eq!(
        check(
            "foo(), bar()",
            Some(vec![SelectStmt {
                target_list: vec![call(&["foo"], vec![]), call(&["bar"], vec![])]
            }]),
            &catalog
        ),
        Err("foo(), bar() is not a valid function call".to_string())
    );
    assert!(check("Robert'); DROP TABLE Students;--", None, &catalog).is_err());
    assert_eq!(
        check("a", one(Expr::ColumnRef), &catalog),
        Err("a is not a function".to_string())
    );
}

#[test]
fn test_check_function_unqualified() {
    let catalog = masking_functions();
    let foo = call(&["foo"], vec![]);
    assert!(check("foo()", one(call(&["foo"], vec![])), &catalog).is_err());
    assert_eq!(
        verify_function(&foo, "anon", &Settings::new(), &catalog),
        Err(Reason::FunctionUnqualified)
    );
    // A name of three parts is not made of a schema and a function either.
    let long = call(&["db", "anon", "lower"], vec![]);
    assert_eq!(
        verify_function(&long, "anon", &Settings::new(), &catalog),
        Err(Reason::FunctionUnqualified)
    );
}

#[test]
fn test_check_function_depends_on_the_labels() {
    let mut catalog = masking_functions();
    let nested = call(&["anon", "lower"], vec![call(&["outfit", "cape"], vec![])]);
    assert_eq!(
        verify_function(&nested, "anon", &Settings::new(), &catalog),
        Err(Reason::SchemaNotTrusted)
    );
    trust_outfit(&mut catalog);
    assert_eq!(verify_function(&nested, "anon", &Settings::new(), &catalog), Ok(()));
}

#[test]
fn test_check_function_without_restriction() {
    let catalog = masking_functions();
    let mut settings = Settings::new();
    settings.restrict_to_trusted_schemas = false;
    let belt = call(&["outfit", "belt"], vec![call(&["foo"], vec![])]);
    assert_eq!(verify_function(&belt, "anon", &settings, &catalog), Ok(()));
    assert_eq!(
        check_function(
            "outfit.belt(foo())",
            one(call(&["outfit", "belt"], vec![call(&["foo"], vec![])])).as_ref(),
            "anon",
            &settings,
            &catalog
        ),
        Ok(())
    );
    // What is no function call is refused all the same.
    assert!(check_function("1", one(Expr::Const).as_ref(), "anon", &settings, &catalog).is_err());
}

#[test]
fn test_check_function_in_another_policy() {
    let catalog = masking_functions();
    let mask = call(&["outfit", "mask"], vec![]);
    assert_eq!(
        verify_function(&mask, "devtests", &Settings::new(), &catalog),
        Err(Reason::SchemaNotTrusted)
    );
}

#[test]
fn test_check_function_of_an_unknown_schema() {
    let catalog = masking_functions();
    let f = call(&["nowhere", "f"], vec![]);
    assert_eq!(
        verify_function(&f, "anon", &Settings::new(), &catalog),
        Err(Reason::SchemaNotTrusted)
    );
}

#[test]
fn test_check_tablesample() {
    assert!(check_tablesample("TABLESAMPLE SYSTEM(10)", Some(1)).is_ok());
    assert_eq!(check_tablesample("", Some(1)), Err("Expression is empty".to_string()));
    assert_eq!(
        check_tablesample("TABLESAMPLE SYSTEM(10); DROP TABLE Students;--", Some(2)),
        Err("TABLESAMPLE SYSTEM(10); DROP TABLE Students;-- is not a valid expression".to_string())
    );
    assert!(check_tablesample("TABLESAMPLE", None).is_err());
    assert!(check_tablesample("--", Some(0)).is_err());
}

#[test]
fn test_tablesample_query() {
    assert_eq!(
        tablesample_query("TABLESAMPLE SYSTEM(10)"),
        Ok("SELECT 1 FROM foo TABLESAMPLE SYSTEM(10)".to_string())
    );
    assert_eq!(tablesample_query(""), Err("Expression is empty".to_string()));
}

#[test]
fn test_check_value() {
    assert!(check_value("foo()", one(call(&["foo"], vec![])).as_ref()).is_err());
    assert_eq!(
        check_value("CAST(0 AS INT)", one(Expr::Other { children: vec![Expr::Const] }).as_ref()),
        Err("CAST(0 AS INT) is not a valid expression for a masking value".to_string())
    );
    assert!(check_value("1", one(Expr::Const).as_ref()).is_ok());
    assert!(check_value("a", one(Expr::ColumnRef).as_ref()).is_ok());
    assert!(check_value("NULL", one(Expr::Const).as_ref()).is_ok());
    assert_eq!(check_value("", None), Err("Expression is empty".to_string()));
    assert_eq!(check_value("1;", None), Err("1; is not a valid expression".to_string()));
}

#[test]
fn test_is_trusted_function() {
    let mut catalog = masking_functions();
    assert!(is_trusted_function(&catalog, OUTFIT, "mask", "anon").is_ok());
    assert_eq!(
        is_trusted_function(&catalog, OUTFIT, "belt", "anon"),
        Err(Reason::FunctionUntrusted)
    );
    assert_eq!(
        is_trusted_function(&catalog, OUTFIT, "cape", "anon"),
        Err(Reason::SchemaNotTrusted)
    );
    // Same tests but now the outfit schema is trusted.
    trust_outfit(&mut catalog);
    assert!(is_trusted_function(&catalog, OUTFIT, "mask", "anon").is_ok());
    assert!(is_trusted_function(&catalog, OUTFIT, "belt", "anon").is_err());
    assert!(is_trusted_function(&catalog, OUTFIT, "cape", "anon").is_ok());
    // The function of the same name in another schema does not count.
    assert!(is_trusted_function(&catalog, PUBLIC, "belt", "anon").is_ok());
}

#[test]
fn test_classify_function() {
    let mut catalog = masking_functions();
    assert_eq!(classify_function(&catalog, OUTFIT, "mask", "anon"), TrustState::Trusted);
    assert_eq!(classify_function(&catalog, OUTFIT, "belt", "anon"), TrustState::Untrusted);
    assert_eq!(classify_function(&catalog, OUTFIT, "cape", "anon"), TrustState::Unknown);
    assert_eq!(classify_function(&catalog, OUTFIT, "nothing", "anon"), TrustState::Unknown);
    // One untrusted definition is enough, wherever it stands.
    catalog.labels.labels.push(label(PROCEDURE_RELATION_ID, 16603, " untrusted"));
    assert_eq!(classify_function(&catalog, OUTFIT, "mask", "anon"), TrustState::Untrusted);
    assert_eq!(
        is_trusted_function(&catalog, OUTFIT, "mask", "anon"),
        Err(Reason::FunctionUntrusted)
    );
}

#[test]
fn test_is_trusted_namespace() {
    let catalog = masking_functions();
    assert!(is_trusted_namespace(&catalog, GOTHAM, "anon").is_ok());
    assert_eq!(is_trusted_namespace(&catalog, ARKHAM, "anon"), Err(Reason::SchemaNotTrusted));
}

#[test]
fn test_parse_expression() {
    assert!(parse_expression("a", one(Expr::ColumnRef).as_ref()).is_ok());
    assert!(matches!(
        parse_expression("foo()", one(call(&["foo"], vec![])).as_ref()),
        Ok(Expr::FuncCall { .. })
    ));
    assert!(parse_expression("NULL", one(Expr::Const).as_ref()).is_ok());
    assert_eq!(
        parse_expression("", one(Expr::Const).as_ref()).err(),
        Some("Expression is empty".to_string())
    );
    let three = Some(vec![SelectStmt {
        target_list: vec![Expr::ColumnRef, Expr::ColumnRef, Expr::ColumnRef],
    }]);
    assert_eq!(
        parse_expression("a,b,c", three.as_ref()).err(),
        Some("a,b,c is not a valid expression".to_string())
    );
    assert!(parse_expression("Robert'); DROP TABLE Students;--", None).is_err());
    let two = Some(vec![
        SelectStmt { target_list: vec![Expr::Const] },
        SelectStmt { target_list: vec![Expr::Const] },
    ]);
    assert!(parse_expression("1; SELECT 2", two.as_ref()).is_err());
    let none = Some(vec![SelectStmt { target_list: vec![] }]);
    assert!(parse_expression(" ", none.as_ref()).is_err());
}

#[test]
fn test_expression_query() {
    assert_eq!(expression_query("anon.lower('A')"), Ok("SELECT anon.lower('A')".to_string()));
    assert_eq!(expression_query(""), Err("Expression is empty".to_string()));
}

#[test]
fn test_is_unstrusted_ok() {
    let catalog = masking_functions();
    let mask_func = call(&["outfit", "mask"], vec![Expr::Const]);
    let mut walker = TreeWalker::new("anon".to_string());
    assert!(!walker.is_untrusted(&mask_func, &catalog));
    assert_eq!(walker.reason, None);
}

#[test]
fn test_is_unstrusted_schema_not_trusted() {
    let catalog = masking_functions();
    let cape_func = call(&["outfit", "cape"], vec![]);
    let mut walker = TreeWalker::new("anon".to_string());
    assert!(walker.is_untrusted(&cape_func, &catalog));
    assert_eq!(walker.reason, Some(Reason::SchemaNotTrusted));
}

#[test]
fn test_is_untrusted_function_unqualified() {
    let catalog = masking_functions();
    let foo_func = call(&["foo"], vec![]);
    let mut walker = TreeWalker::new(String::from("anon"));
    assert!(walker.is_untrusted(&foo_func, &catalog));
    assert_eq!(walker.reason, Some(Reason::FunctionUnqualified));
}

#[test]
fn test_is_untrusted_function_untrusted() {
    let catalog = masking_functions();
    let belt_func = call(&["outfit", "belt"], vec![]);
    let mut walker = TreeWalker::new("anon".to_string());
    assert!(walker.is_untrusted(&belt_func, &catalog));
    assert_eq!(walker.reason, Some(Reason::FunctionUntrusted));
}

#[test]
fn test_is_untrusted_stops_at_the_first_call() {
    let catalog = masking_functions();
    // The call itself comes before its arguments, and an argument before the
    // next one.
    let tree = call(
        &["outfit", "cape"],
        vec![call(&["outfit", "belt"], vec![]), call(&["foo"], vec![])],
    );
    let mut walker = TreeWalker::new("anon".to_string());
    assert!(walker.is_untrusted(&tree, &catalog));
    assert_eq!(walker.reason, Some(Reason::SchemaNotTrusted));
    let tree = call(
        &["outfit", "mask"],
        vec![
            Expr::Other { children: vec![Expr::Const, call(&["foo"], vec![])] },
            call(&["outfit", "belt"], vec![]),
        ],
    );
    let mut walker = TreeWalker::new("anon".to_string());
    assert!(walker.is_untrusted(&tree, &catalog));
    assert_eq!(walker.reason, Some(Reason::FunctionUnqualified));
    // What is no call is trusted.
    let mut walker = TreeWalker::new("anon".to_string());
    assert!(!walker.is_untrusted(&Expr::Other { children: vec![Expr::ColumnRef] }, &catalog));
    assert_eq!(walker.reason, None);
}

#[test]
fn test_check_call() {
    let mut catalog = masking_functions();
    let name = |parts: &[&str]| -> Vec<String> { parts.iter().map(|s| s.to_string()).collect() };
    assert_eq!(check_call(&name(&["outfit", "mask"]), "anon", &catalog), None);
    assert_eq!(check_call(&name(&["anon", "lower"]), "anon", &catalog), None);
    assert_eq!(
        check_call(&name(&["outfit", "belt"]), "anon", &catalog),
        Some(Reason::FunctionUntrusted)
    );
    assert_eq!(
        check_call(&name(&["outfit", "cape"]), "anon", &catalog),
        Some(Reason::SchemaNotTrusted)
    );
    assert_eq!(check_call(&name(&["mask"]), "anon", &catalog), Some(Reason::FunctionUnqualified));
    assert_eq!(check_call(&name(&[]), "anon", &catalog), Some(Reason::FunctionUnqualified));
    assert_eq!(
        check_call(&name(&["nowhere", "mask"]), "anon", &catalog),
        Some(Reason::SchemaNotTrusted)
    );
    trust_outfit(&mut catalog);
    assert_eq!(check_call(&name(&["outfit", "cape"]), "anon", &catalog), None);
}

#[test]
fn test_is_untrusted_walker() {
    let catalog = masking_functions();
    let mut walker = TreeWalker::new("anon".to_string());
    let nested = call(&["anon", "lower"], vec![call(&["outfit", "belt"], vec![])]);
    assert!(is_untrusted_walker(&nested, &mut walker, &catalog));
    assert_eq!(walker.reason, Some(Reason::FunctionUntrusted));
    assert_eq!(walker.policy, "anon");
    // A walk that rejects nothing leaves the context as it was.
    let fine = call(&["anon", "lower"], vec![call(&["outfit", "mask"], vec![Expr::Const])]);
    assert!(!is_untrusted_walker(&fine, &mut walker, &catalog));
    assert_eq!(walker.reason, Some(Reason::FunctionUntrusted));
    assert!(!is_untrusted_walker(&Expr::ColumnRef, &mut walker, &catalog));
}
