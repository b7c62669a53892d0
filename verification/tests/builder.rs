//! Tests of the query builder: construction, comments, sources, filter
//! clauses and joins.

use sigma_sentinel::sentinel::{Condition, SentinelQuery};
use sigma_sentinel::sigma::{FieldMatch, FilterValue, Selection};
use sigma_sentinel::ParsingError;

fn selection(name: &str, fields: Vec<(&str, FilterValue)>) -> Selection {
    Selection {
        name: name.to_string(),
        fields: fields
            .into_iter()
            .map(|(f, v)| FieldMatch { field: f.to_string(), value: v })
            .collect(),
    }
}

#[test]
fn test_init() {
    let query = SentinelQuery::new().query;
    assert_eq!(query, String::new());
}

#[test]
fn test_comment() {
    let mut query = SentinelQuery::new();
    query.comment("This is a test comment");
    assert_eq!(query.query, "// This is a test comment\n".to_string());
}

#[test]
fn test_source() {
    let mut query = SentinelQuery::new();
    query.from("CommonSecurity");
    query.comment("This is a test comment");
    assert_eq!(
        query.query,
        "// This is a test comment\nCommonSecurity".to_string()
    );

    let args = Vec::new();
    assert!(query.add_where(Condition::Or, &args).is_ok());
}

#[test]
fn where_clause_scalar_string() {
    let mut query = SentinelQuery::new();
    query.from("windowsEvent");
    let sels = vec![selection(
        "selection1",
        vec![("process", FilterValue::Str("toto".to_string()))],
    )];
    assert!(query.add_where(Condition::Or, &sels).is_ok());
    assert_eq!(
        query.query,
        "windowsEvent\n| where process == 'toto'".to_string()
    );
}

#[test]
fn where_clause_list() {
    let mut query = SentinelQuery::new();
    query.from("windowsEvent");
    let sels = vec![selection(
        "selection2",
        vec![(
            "image",
            FilterValue::List(vec![
                FilterValue::Str("tutu".to_string()),
                FilterValue::Str("tyty".to_string()),
            ]),
        )],
    )];
    assert!(query.add_where(Condition::Or, &sels).is_ok());
    assert_eq!(
        query.query,
        "windowsEvent\n| where (image == 'tutu' or image == 'tyty')".to_string()
    );
}

#[test]
fn where_clause_numeric_list_elements_are_quoted() {
    let mut query = SentinelQuery::new();
    query.from("firewall");
    let sels = vec![selection(
        "selection1",
        vec![(
            "port",
            FilterValue::List(vec![FilterValue::Num(80), FilterValue::Num(443)]),
        )],
    )];
    assert!(query.add_where(Condition::Or, &sels).is_ok());
    assert_eq!(
        query.query,
        "firewall\n| where (port == '80' or port == '443')".to_string()
    );
}

#[test]
fn where_clause_number() {
    let mut query = SentinelQuery::new();
    query.from("firewall");
    let sels = vec![selection(
        "selection1",
        vec![
            ("port", FilterValue::Num(443)),
            ("offset", FilterValue::Num(-7)),
        ],
    )];
    assert!(query.add_where(Condition::And, &sels).is_ok());
    assert_eq!(
        query.query,
        "firewall\n| where port == 443\n  and offset == -7".to_string()
    );
}

#[test]
fn where_clause_joins_pairs_across_selections() {
    let mut query = SentinelQuery::new();
    query.from("src");
    let sels = vec![
        selection(
            "selection1",
            vec![
                ("process", FilterValue::Str("toto".to_string())),
                ("file", FilterValue::Str("tata".to_string())),
            ],
        ),
        selection(
            "selection2",
            vec![("image", FilterValue::Str("tutu".to_string()))],
        ),
    ];
    assert!(query.add_where(Condition::Or, &sels).is_ok());
    assert_eq!(
        query.query,
        "src\n| where process == 'toto'\n  or file == 'tata'\n  or image == 'tutu'".to_string()
    );
}

#[test]
fn where_clause_unsupported_value_is_recoverable() {
    let mut query = SentinelQuery::new();
    query.from("src");
    let sels = vec![selection("selection1", vec![("x", FilterValue::Unsupported)])];
    assert_eq!(
        query.add_where(Condition::Or, &sels),
        Err(ParsingError::InvalidAttribute)
    );
    assert_eq!(query.query, "src".to_string());
}

#[test]
fn where_clause_empty_list_is_recoverable() {
    let mut query = SentinelQuery::new();
    query.from("src");
    let sels = vec![selection("selection1", vec![("x", FilterValue::List(Vec::new()))])];
    assert_eq!(
        query.add_where(Condition::Or, &sels),
        Err(ParsingError::InvalidAttribute)
    );
    assert_eq!(query.query, "src".to_string());
}

#[test]
fn join_identity() {
    let empty = SentinelQuery::new();
    let mut x = SentinelQuery::new();
    x.from("TableA\n| where a == 1");

    let left = SentinelQuery::join(&empty, &x);
    assert_eq!(left.query, x.query);
    let right = SentinelQuery::join(&x, &empty);
    assert_eq!(right.query, x.query);

    let both = SentinelQuery::join(&empty, &empty);
    assert_eq!(both.query, String::new());
}

#[test]
fn join_is_associative() {
    let mut a = SentinelQuery::new();
    a.from("TableA");
    let mut b = SentinelQuery::new();
    b.from("TableB");
    let mut c = SentinelQuery::new();
    c.from("TableC");
    let left = SentinelQuery::join(&SentinelQuery::join(&a, &b), &c);
    let right = SentinelQuery::join(&a, &SentinelQuery::join(&b, &c));
    assert_eq!(left.query, right.query);
    assert_eq!(left.query, "TableA\nTableB\nTableC".to_string());
}

#[test]
fn join_concatenates_on_consecutive_lines() {
    let mut a = SentinelQuery::new();
    a.from("TableA");
    let mut b = SentinelQuery::new();
    b.from("TableB");
    let joined = SentinelQuery::join(&a, &b);
    assert_eq!(joined.query, "TableA\nTableB".to_string());
}
