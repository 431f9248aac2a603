use anon::catalog::{Attribute, Catalog, LabelStore, Relation, Schema, FIRST_NORMAL_OBJECT_ID, INVALID_OID};
use anon::compat::IsCatalogRelationOid;
use anon::error::ErrorCode;
use anon::macros::OidIsValid;
use anon::nodes::Expr;
use anon::utils::{
    get_column_number, get_column_numbers, get_function_schema, get_relation_qualified_name,
    is_anon_relation_oid, qualified_name,
};

const PERSON: u32 = 16400;
const LOCATION: u32 = 16420;
const LAST_NAME: u32 = 16395;
const ANON: u32 = 16390;

fn column(name: &str, attnum: i16, dropped: bool) -> Attribute {
    Attribute {
        name: name.to_string(),
        quoted_name: name.to_string(),
        attnum,
        dropped,
        type_text: "text".to_string(),
        has_default: false,
        generated: false,
    }
}

fn table_person() -> Relation {
    Relation {
        oid: PERSON,
        namespace_id: 2200,
        quoted_namespace: Some("public".to_string()),
        quoted_name: "person".to_string(),
        attributes: vec![
            column("pronouns", 1, true),
            column("firstname", 2, false),
            column("lastname", 3, false),
        ],
        defaults: vec![],
    }
}

fn catalog() -> Catalog {
    Catalog {
        database_id: 5,
        relations: vec![
            table_person(),
            Relation {
                oid: LOCATION,
                namespace_id: 16419,
                quoted_namespace: Some("\"Postal_Info\"".to_string()),
                quoted_name: "location".to_string(),
                attributes: vec![],
                defaults: vec![],
            },
            Relation {
                oid: LAST_NAME,
                namespace_id: ANON,
                quoted_namespace: Some("anon".to_string()),
                quoted_name: "last_name".to_string(),
                attributes: vec![],
                defaults: vec![],
            },
        ],
        functions: vec![],
        schemas: vec![
            Schema { oid: 2200, name: "public".to_string() },
            Schema { oid: ANON, name: "anon".to_string() },
        ],
        labels: LabelStore { labels: vec![] },
    }
}

fn call(name: &[&str]) -> Expr {
    Expr::FuncCall { funcname: name.iter().map(|s| s.to_string()).collect(), args: vec![] }
}

#[test]
fn test_get_column_number() {
    let rel = table_person();
    assert_eq!(Some(2 as i16), get_column_number(&rel, "firstname"));
    assert_eq!(Some(3 as i16), get_column_number(&rel, "lastname"));
    // A dropped column.
    assert_eq!(None, get_column_number(&rel, "pronouns"));
    assert_eq!(None, get_column_number(&rel, "does_not_exist"));
    assert_eq!(None, get_column_number(&rel, "FIRSTNAME"));
}

#[test]
fn test_get_column_numbers() {
    assert_eq!(Some(vec![2, 3]), get_column_numbers(&table_person()));
    let mut empty = table_person();
    empty.attributes.clear();
    assert_eq!(Some(vec![]), get_column_numbers(&empty));
}

#[test]
fn test_get_function_schema() {
    assert_eq!(Ok("a".to_string()), get_function_schema("a.b()", Some(&call(&["a", "b"]))));
    assert_eq!(Ok("".to_string()), get_function_schema("publicfoo()", Some(&call(&["publicfoo"]))));
    assert_eq!(
        Ok("".to_string()),
        get_function_schema("a.b.c()", Some(&call(&["a", "b", "c"])))
    );
}

#[test]
fn test_get_function_schema_error_empty() {
    let error = get_function_schema("", None).unwrap_err();
    assert_eq!(error.error_code, ErrorCode::NoData);
    assert_eq!(error.report_message(), "Anon: function call is empty");
    assert!(get_function_schema("", Some(&call(&["a", "b"]))).is_err());
}

#[test]
fn test_get_function_schema_error_invalid() {
    let error = get_function_schema("foo", Some(&Expr::ColumnRef)).unwrap_err();
    assert_eq!(error.error_code, ErrorCode::InvalidName);
    assert_eq!(error.report_message(), "Anon: 'foo' is not a valid function call");
    assert!(get_function_schema("foo(", None).is_err());
}

#[test]
fn test_get_relation_qualified_name_invalid_oid() {
    assert!(get_relation_qualified_name(&catalog(), INVALID_OID).is_none());
    assert!(get_relation_qualified_name(&catalog(), 99999).is_none());
}

#[test]
fn test_get_relation_qualified_name() {
    assert_eq!(
        Some("public.person".to_string()),
        get_relation_qualified_name(&catalog(), PERSON)
    );
    assert_eq!(
        Some("\"Postal_Info\".location".to_string()),
        get_relation_qualified_name(&catalog(), LOCATION)
    );
    assert_eq!(qualified_name(&table_person()), Some("public.person".to_string()));
}

#[test]
fn test_is_anon_relation_oid() {
    assert!(!is_anon_relation_oid(&catalog(), INVALID_OID));
    assert!(!is_anon_relation_oid(&catalog(), PERSON));
    assert!(is_anon_relation_oid(&catalog(), LAST_NAME));
    let mut without = catalog();
    without.schemas.pop();
    assert!(!is_anon_relation_oid(&without, LAST_NAME));
}

#[test]
fn test_oid_is_valid() {
    assert!(!OidIsValid(INVALID_OID));
    assert!(OidIsValid(1));
    assert!(OidIsValid(u32::MAX));
}

#[test]
fn test_is_catalog_relation_oid() {
    assert!(IsCatalogRelationOid(0));
    assert!(IsCatalogRelationOid(1259));
    assert!(IsCatalogRelationOid(FIRST_NORMAL_OBJECT_ID - 1));
    assert!(!IsCatalogRelationOid(FIRST_NORMAL_OBJECT_ID));
    assert!(!IsCatalogRelationOid(PERSON));
}

#[test]
fn test_catalog_is_wf() {
    assert!(catalog().is_wf());
    let mut broken = catalog();
    broken.schemas.push(Schema { oid: INVALID_OID, name: "nowhere".to_string() });
    assert!(!broken.is_wf());
    assert_eq!(catalog().schema_id("anon"), Some(ANON));
    assert_eq!(catalog().schema_id("Anon"), None);
    assert_eq!(catalog().relation(LOCATION).map(|r| r.oid), Some(LOCATION));
    assert!(catalog().relation(1).is_none());
}

#[test]
fn test_relation_is_wf() {
    assert!(table_person().is_wf());
    let mut gap = table_person();
    gap.attributes.remove(1);
    assert!(!gap.is_wf());
    let mut empty = table_person();
    empty.attributes.clear();
    assert!(empty.is_wf());
}
