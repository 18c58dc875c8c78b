use central_repository::error::{APIError, ValidationFailureKind};
use central_repository::json::{JsonNumber, JsonScalar, JsonValue};
use central_repository::records::{
    build_records, evaluate_upload, format_is_prunable, prune_cutoff, session_is_prunable,
    summarize_prune, InboundRecordData, OutcomeKind, RangeFilter, Record, RecordFilter,
    RecordJsonData, UploadSession,
};
use central_repository::schema::{ColumnKind, ColumnSchema, Format, FormatSchema};

fn number(text: &str) -> JsonValue {
    JsonValue::Scalar(JsonScalar::Num(JsonNumber {
        text: text.to_string(),
        float_representable: true,
    }))
}

fn string_value(text: &str) -> JsonValue {
    JsonValue::Scalar(JsonScalar::Str(text.to_string()))
}

fn doc(entries: Vec<(&str, JsonValue)>) -> RecordJsonData {
    RecordJsonData(entries.into_iter().map(|(k, v)| (k.to_string(), v)).collect())
}

fn payment_format() -> Format {
    Format {
        id: 2,
        name: "payments".to_string(),
        description: String::new(),
        created_at: 0,
        schema: FormatSchema(vec![
            ColumnSchema { name: "amount".to_string(), regex: None, kind: ColumnKind::Number },
            ColumnSchema {
                name: "payee".to_string(),
                regex: Some("^[a-z]+$".to_string()),
                kind: ColumnKind::String,
            },
            ColumnSchema { name: "paid_at".to_string(), regex: None, kind: ColumnKind::Datetime },
        ]),
        retention_period_minutes: 60,
    }
}

fn good_doc() -> RecordJsonData {
    doc(vec![
        ("amount", number("5")),
        ("payee", string_value("acme")),
        ("paid_at", string_value("2024-01-02T03:04:05Z")),
    ])
}

#[test]
fn conforming_batch_passes() {
    let inbound = InboundRecordData { format_id: 2, data: vec![good_doc(), good_doc()] };
    assert!(inbound.validate_blocking(&payment_format()).is_ok());
}

#[test]
fn missing_key_fails_the_batch() {
    let incomplete = doc(vec![("amount", number("5")), ("payee", string_value("acme"))]);
    let inbound = InboundRecordData { format_id: 2, data: vec![good_doc(), incomplete] };
    assert_eq!(
        inbound.validate_blocking(&payment_format()),
        Err(APIError::ValidationFailure(ValidationFailureKind::MissingDictKeys))
    );
}

#[test]
fn undeclared_key_fails_the_batch() {
    let mut extra = good_doc();
    extra.0.push(("extra".to_string(), number("1")));
    let inbound = InboundRecordData { format_id: 2, data: vec![extra] };
    assert_eq!(
        inbound.validate_blocking(&payment_format()),
        Err(APIError::ValidationFailure(ValidationFailureKind::MissingDictKeys))
    );
}

#[test]
fn wrong_value_kind_fails_the_batch() {
    let mismatched = doc(vec![
        ("amount", string_value("five")),
        ("payee", string_value("acme")),
        ("paid_at", string_value("2024-01-02T03:04:05Z")),
    ]);
    let inbound = InboundRecordData { format_id: 2, data: vec![mismatched] };
    assert_eq!(
        inbound.validate_blocking(&payment_format()),
        Err(APIError::ValidationFailure(ValidationFailureKind::MismatchedDataType))
    );
}

#[test]
fn unparsable_datetime_fails_the_batch() {
    let bad_date = doc(vec![
        ("amount", number("5")),
        ("payee", string_value("acme")),
        ("paid_at", string_value("yesterday")),
    ]);
    let inbound = InboundRecordData { format_id: 2, data: vec![bad_date] };
    assert_eq!(
        inbound.validate_blocking(&payment_format()),
        Err(APIError::ValidationFailure(ValidationFailureKind::MismatchedDataType))
    );
}

#[test]
fn regex_violation_fails_the_batch() {
    let shouting = doc(vec![
        ("amount", number("5")),
        ("payee", string_value("ACME")),
        ("paid_at", string_value("2024-01-02T03:04:05Z")),
    ]);
    let inbound = InboundRecordData { format_id: 2, data: vec![shouting] };
    assert_eq!(
        inbound.validate_blocking(&payment_format()),
        Err(APIError::ValidationFailure(ValidationFailureKind::RegexMatchFailure))
    );
}

#[test]
fn failed_batch_is_recorded_as_an_error_session() {
    let incomplete = doc(vec![("amount", number("5"))]);
    let inbound = InboundRecordData { format_id: 2, data: vec![good_doc(), incomplete] };
    let (session, verdict) =
        evaluate_upload(&payment_format(), &inbound, 7, 1000, "summary".to_string());
    assert_eq!(session.outcome, OutcomeKind::Error);
    assert_eq!(session.record_count, 2);
    assert_eq!(session.format_id, 2);
    assert_eq!(session.user_id, 7);
    assert_eq!(session.created_at, 1000);
    // The session's detail is the validation failure's own text, and
    // the failure itself comes back for the caller to surface.
    assert_eq!(
        verdict,
        Err(APIError::ValidationFailure(ValidationFailureKind::MissingDictKeys))
    );
    assert_eq!(
        session.detail,
        "One or more entries either lack or contain invalid/unknown keys"
    );
}

#[test]
fn clean_batch_is_recorded_as_a_success_session() {
    let inbound = InboundRecordData { format_id: 2, data: vec![good_doc()] };
    let (session, verdict) =
        evaluate_upload(&payment_format(), &inbound, 7, 1000, "summary".to_string());
    assert_eq!(session.outcome, OutcomeKind::Success);
    assert_eq!(session.record_count, 1);
    assert_eq!(session.detail, "summary");
    assert!(verdict.is_ok());
}

#[test]
fn built_records_carry_session_format_and_documents() {
    let inbound = InboundRecordData { format_id: 2, data: vec![good_doc(), good_doc()] };
    let records = build_records(inbound, 31, 2);
    assert_eq!(records.len(), 2);
    for record in &records {
        assert_eq!(record.upload_session_id, 31);
        assert_eq!(record.format_id, 2);
        assert_eq!(record.id, 0);
        assert_eq!(record.data, good_doc());
    }
}

#[test]
fn format_creation_rejects_a_regex_on_a_numeric_column() {
    let format = Format {
        id: 1,
        name: "bad".to_string(),
        description: String::new(),
        created_at: 0,
        schema: FormatSchema(vec![ColumnSchema {
            name: "amount".to_string(),
            regex: Some("^[0-9]+$".to_string()),
            kind: ColumnKind::Number,
        }]),
        retention_period_minutes: 0,
    };
    assert!(format.check_schema_regexes().is_err());
}

#[test]
fn format_creation_rejects_a_malformed_regex() {
    let format = Format {
        id: 1,
        name: "bad".to_string(),
        description: String::new(),
        created_at: 0,
        schema: FormatSchema(vec![ColumnSchema {
            name: "payee".to_string(),
            regex: Some("[unclosed".to_string()),
            kind: ColumnKind::String,
        }]),
        retention_period_minutes: 0,
    };
    assert!(format.check_schema_regexes().is_err());
}

#[test]
fn format_creation_accepts_valid_regexes() {
    assert!(payment_format().check_schema_regexes().is_ok());
}

#[test]
fn pruning_follows_retention_and_age() {
    let format = payment_format();
    assert!(format_is_prunable(&format));
    let keep_forever =
        Format { retention_period_minutes: 0, ..payment_format() };
    assert!(!format_is_prunable(&keep_forever));
    let now = 10_000;
    assert_eq!(prune_cutoff(now, 60), 10_000 - 3600);
    let stale = UploadSession {
        id: 1,
        created_at: now - 3601,
        record_count: 0,
        format_id: 2,
        user_id: 7,
        outcome: OutcomeKind::Success,
        detail: String::new(),
    };
    let fresh = UploadSession { created_at: now - 10, ..stale.clone() };
    let other_format = UploadSession { format_id: 9, ..stale.clone() };
    assert!(session_is_prunable(&stale, &format, now));
    assert!(!session_is_prunable(&fresh, &format, now));
    assert!(!session_is_prunable(&other_format, &format, now));
}

#[test]
fn prune_summary_counts_successes_and_failures() {
    let format = payment_format();
    let summary = summarize_prune(
        &format,
        9_000,
        vec![4, 5, 6],
        &vec![true, false, true],
    );
    assert_eq!(summary.format_id, 2);
    assert_eq!(summary.format_name, "payments");
    assert_eq!(summary.pruned_created_at_before, 9_000);
    assert_eq!(summary.upload_session_ids, vec![4, 5, 6]);
    assert_eq!(summary.success, 2);
    assert_eq!(summary.failed, 1);
}

#[test]
fn key_mismatch_outranks_value_errors() {
    // A document missing one declared column and mistyping another
    // reports the key mismatch, not the type fault.
    let broken = doc(vec![("amount", string_value("five")), ("payee", string_value("acme"))]);
    let inbound = InboundRecordData { format_id: 2, data: vec![broken] };
    assert_eq!(
        inbound.validate_blocking(&payment_format()),
        Err(APIError::ValidationFailure(ValidationFailureKind::MissingDictKeys))
    );
}

#[test]
fn schema_creation_rejects_duplicate_column_names() {
    let format = Format {
        id: 1,
        name: "bad".to_string(),
        description: String::new(),
        created_at: 0,
        schema: FormatSchema(vec![
            ColumnSchema { name: "amount".to_string(), regex: None, kind: ColumnKind::Number },
            ColumnSchema { name: "amount".to_string(), regex: None, kind: ColumnKind::String },
        ]),
        retention_period_minutes: 0,
    };
    assert!(format.check_schema_names().is_err());
    assert!(format.check_schema().is_err());
    assert!(payment_format().check_schema_names().is_ok());
    assert!(payment_format().check_schema().is_ok());
}

#[test]
fn record_filters_check_id_and_session_ranges() {
    let record = Record {
        id: 50,
        upload_session_id: 7,
        format_id: 2,
        data: good_doc(),
    };
    assert!(RecordFilter::any().admits(&record));
    let narrowed = RecordFilter {
        id: RangeFilter { gte: Some(10), lt: Some(100), ..RangeFilter::any() },
        upload_session_id: RangeFilter { eq: Some(7), ..RangeFilter::any() },
    };
    assert!(narrowed.admits(&record));
    let rejecting = RecordFilter {
        id: RangeFilter { gt: Some(50), ..RangeFilter::any() },
        upload_session_id: RangeFilter::any(),
    };
    assert!(!rejecting.admits(&record));
}
