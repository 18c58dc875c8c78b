use central_repository::error::DatabaseQueryError;
use central_repository::json::{JsonNumber, JsonScalar, JsonValue};
use central_repository::schema::{ColumnKind, ColumnSchema, Format, FormatSchema};
use central_repository::search::{
    ComparisonOperator, CompiledComparison, ConditionKind, PreparedSearchQuery, SearchArguments,
    SearchGroup, SearchQuery,
};

fn column(name: &str, kind: ColumnKind) -> ColumnSchema {
    ColumnSchema { name: name.to_string(), regex: None, kind }
}

fn format_with(id: i32, name: &str, cols: Vec<ColumnSchema>) -> Format {
    Format {
        id,
        name: name.to_string(),
        description: String::new(),
        created_at: 0,
        schema: FormatSchema(cols),
        retention_period_minutes: 0,
    }
}

fn number(text: &str) -> JsonValue {
    JsonValue::Scalar(JsonScalar::Num(JsonNumber {
        text: text.to_string(),
        float_representable: true,
    }))
}

fn string_value(text: &str) -> JsonValue {
    JsonValue::Scalar(JsonScalar::Str(text.to_string()))
}

fn arg(column_name: &str, op: ComparisonOperator, value: JsonValue) -> SearchArguments {
    SearchArguments {
        column: column_name.to_string(),
        join_kind: None,
        comparison_operator: op,
        compare_against: value,
    }
}

fn one_group_query(args: Vec<SearchArguments>) -> SearchQuery {
    SearchQuery {
        formats: None,
        upload_session: None,
        query: vec![SearchGroup { not: false, condition_kind: ConditionKind::All, args }],
    }
}

fn prepared(formats: Vec<Format>, query: SearchQuery) -> PreparedSearchQuery {
    PreparedSearchQuery { formats, query }
}

#[test]
fn empty_format_list_is_rejected() {
    let query = SearchQuery { formats: Some(vec![]), upload_session: None, query: vec![] };
    assert_eq!(query.validate(), Err(DatabaseQueryError::EmptyQuery));
}

#[test]
fn absent_format_list_is_accepted() {
    let query = SearchQuery { formats: None, upload_session: None, query: vec![] };
    assert!(query.validate().is_ok());
}

#[test]
fn mixed_column_kinds_fail_compilation() {
    let f1 = format_with(1, "payments", vec![column("amount", ColumnKind::Number)]);
    let f2 = format_with(2, "legacy", vec![column("amount", ColumnKind::String)]);
    let query = one_group_query(vec![arg("amount", ComparisonOperator::Eq, number("5"))]);
    let result = prepared(vec![f1, f2], query).apply_condition();
    match result {
        Err(DatabaseQueryError::ColumnWithMixedTypesError(name)) => assert_eq!(name, "amount"),
        other => panic!("expected a mixed-types error, got {:?}", other),
    }
}

#[test]
fn mixed_kinds_fail_even_without_referencing_the_column() {
    // The unification runs before any per-argument validation, so the
    // conflict poisons a query about a different column too.
    let f1 = format_with(1, "a", vec![
        column("amount", ColumnKind::Number),
        column("note", ColumnKind::String),
    ]);
    let f2 = format_with(2, "b", vec![column("amount", ColumnKind::String)]);
    let query = one_group_query(vec![arg("note", ComparisonOperator::Eq, string_value("x"))]);
    let result = prepared(vec![f1, f2], query).apply_condition();
    match result {
        Err(DatabaseQueryError::ColumnWithMixedTypesError(name)) => assert_eq!(name, "amount"),
        other => panic!("expected a mixed-types error, got {:?}", other),
    }
}

#[test]
fn narrowed_id_filter_does_not_save_a_mixed_query() {
    // Format F1 declares amount as a number, F2 as a string.  Even if
    // the caller's formats filter named only one id, both resolved as
    // visible, so the query still fails naming the column.
    let f1 = format_with(1, "f1", vec![column("amount", ColumnKind::Number)]);
    let f2 = format_with(2, "f2", vec![column("amount", ColumnKind::String)]);
    let query = SearchQuery {
        formats: Some(vec![1]),
        upload_session: None,
        query: vec![SearchGroup {
            not: false,
            condition_kind: ConditionKind::All,
            args: vec![arg("amount", ComparisonOperator::Eq, number("5"))],
        }],
    };
    let result = prepared(vec![f1, f2], query).apply_condition();
    match result {
        Err(DatabaseQueryError::ColumnWithMixedTypesError(name)) => assert_eq!(name, "amount"),
        other => panic!("expected a mixed-types error, got {:?}", other),
    }
}

#[test]
fn like_on_numeric_column_is_invalid_usage() {
    let f = format_with(1, "payments", vec![column("amount", ColumnKind::Number)]);
    let query = one_group_query(vec![arg("amount", ComparisonOperator::Like, string_value("5%"))]);
    match prepared(vec![f], query).apply_condition() {
        Err(DatabaseQueryError::InvalidUsage(_)) => {}
        other => panic!("expected an invalid-usage error, got {:?}", other),
    }
}

#[test]
fn regex_on_numeric_column_is_invalid_usage() {
    let f = format_with(1, "payments", vec![column("amount", ColumnKind::Number)]);
    let query =
        one_group_query(vec![arg("amount", ComparisonOperator::Regex, string_value("^5$"))]);
    match prepared(vec![f], query).apply_condition() {
        Err(DatabaseQueryError::InvalidUsage(_)) => {}
        other => panic!("expected an invalid-usage error, got {:?}", other),
    }
}

#[test]
fn ilike_on_numeric_column_is_invalid_usage() {
    let f = format_with(1, "payments", vec![column("amount", ColumnKind::Number)]);
    let query =
        one_group_query(vec![arg("amount", ComparisonOperator::ILike, string_value("5%"))]);
    match prepared(vec![f], query).apply_condition() {
        Err(DatabaseQueryError::InvalidUsage(_)) => {}
        other => panic!("expected an invalid-usage error, got {:?}", other),
    }
}

#[test]
fn membership_with_non_numeric_element_is_invalid_usage() {
    let f = format_with(1, "payments", vec![column("amount", ColumnKind::Number)]);
    let value = JsonValue::Array(vec![
        JsonScalar::Num(JsonNumber { text: "1".to_string(), float_representable: true }),
        JsonScalar::Str("two".to_string()),
    ]);
    let query = one_group_query(vec![arg("amount", ComparisonOperator::In, value)]);
    match prepared(vec![f], query).apply_condition() {
        Err(DatabaseQueryError::InvalidUsage(_)) => {}
        other => panic!("expected an invalid-usage error, got {:?}", other),
    }
}

#[test]
fn unknown_column_is_reported() {
    let f = format_with(1, "payments", vec![column("amount", ColumnKind::Number)]);
    let query = one_group_query(vec![arg("missing", ComparisonOperator::Eq, number("5"))]);
    match prepared(vec![f], query).apply_condition() {
        Err(DatabaseQueryError::InvalidColumnRequested(name)) => assert_eq!(name, "missing"),
        other => panic!("expected an unknown-column error, got {:?}", other),
    }
}

#[test]
fn join_operator_is_rejected() {
    let f = format_with(1, "payments", vec![column("amount", ColumnKind::Number)]);
    let query = one_group_query(vec![arg(
        "amount",
        ComparisonOperator::JoinColumnEq,
        string_value("amount"),
    )]);
    match prepared(vec![f], query).apply_condition() {
        Err(DatabaseQueryError::InvalidUsage(_)) => {}
        other => panic!("expected an invalid-usage error, got {:?}", other),
    }
}

#[test]
fn unrepresentable_number_in_ordering_is_cast_error() {
    let f = format_with(1, "payments", vec![column("amount", ColumnKind::Number)]);
    let value = JsonValue::Scalar(JsonScalar::Num(JsonNumber {
        text: "123456789012345678901234567890".to_string(),
        float_representable: false,
    }));
    let query = one_group_query(vec![arg("amount", ComparisonOperator::Lt, value)]);
    assert_eq!(
        prepared(vec![f], query).apply_condition().err(),
        Some(DatabaseQueryError::CastError)
    );
}

#[test]
fn valid_query_compiles_with_visibility_and_casts() {
    let f1 = format_with(7, "payments", vec![
        column("amount", ColumnKind::Number),
        column("payee", ColumnKind::String),
    ]);
    let f2 = format_with(9, "refunds", vec![column("amount", ColumnKind::Number)]);
    let query = SearchQuery {
        formats: None,
        upload_session: None,
        query: vec![SearchGroup {
            not: true,
            condition_kind: ConditionKind::Any,
            args: vec![
                arg("amount", ComparisonOperator::Gte, number("10")),
                arg("payee", ComparisonOperator::ILike, string_value("acme%")),
            ],
        }],
    };
    let compiled = prepared(vec![f1, f2], query).apply_condition().expect("query compiles");
    assert_eq!(compiled.visible_format_ids, vec![7, 9]);
    assert!(compiled.upload_session_filter.is_none());
    assert_eq!(compiled.groups.len(), 1);
    let group = &compiled.groups[0];
    assert!(group.negated);
    assert_eq!(group.kind, ConditionKind::Any);
    assert_eq!(group.args.len(), 2);
    assert!(group.args[0].cast_to_float);
    match &group.args[0].comparison {
        CompiledComparison::GteNum(n) => assert_eq!(n.text, "10"),
        other => panic!("expected a numeric lower bound, got {:?}", other),
    }
    assert!(!group.args[1].cast_to_float);
    match &group.args[1].comparison {
        CompiledComparison::ILike(p) => assert_eq!(p, "acme%"),
        other => panic!("expected a pattern comparison, got {:?}", other),
    }
}

#[test]
fn schema_columns_are_deduplicated_in_first_seen_order() {
    let f1 = format_with(1, "a", vec![
        column("amount", ColumnKind::Number),
        column("payee", ColumnKind::String),
    ]);
    let f2 = format_with(2, "b", vec![
        column("amount", ColumnKind::Number),
        column("memo", ColumnKind::String),
    ]);
    let p = prepared(
        vec![f1, f2],
        SearchQuery { formats: None, upload_session: None, query: vec![] },
    );
    assert_eq!(p.schema_columns(), vec!["amount", "payee", "memo"]);
}

#[test]
fn empty_group_is_carried_but_constrains_nothing() {
    let f = format_with(1, "payments", vec![column("amount", ColumnKind::Number)]);
    let query = one_group_query(vec![]);
    let compiled = prepared(vec![f], query).apply_condition().expect("query compiles");
    assert_eq!(compiled.groups.len(), 1);
    assert!(compiled.groups[0].args.is_empty());
}
