use central_repository::error::{
    classify_db_message, APIError, CoreError, DatabaseQueryError, ValidationFailureKind,
};

#[test]
fn duplicate_key_messages_become_conflicts() {
    let e = classify_db_message("ERROR: Duplicate KEY Value violates unique constraint");
    assert_eq!(e, APIError::DuplicateError);
}

#[test]
fn malformed_regex_messages_become_usage_errors() {
    let e = classify_db_message("ERROR: Invalid Regular Expression: brackets not balanced");
    match e {
        APIError::InvalidQuery(_) => {}
        other => panic!("expected a usage error, got {:?}", other),
    }
}

#[test]
fn unrecognised_messages_become_opaque_server_errors() {
    let e = classify_db_message("connection reset by peer");
    assert_eq!(e, APIError::ServerError);
}

#[test]
fn status_codes_follow_the_taxonomy() {
    assert_eq!(APIError::BadRequest.status_code(), 400);
    assert_eq!(APIError::DuplicateError.status_code(), 400);
    assert_eq!(
        APIError::ValidationFailure(ValidationFailureKind::MissingDictKeys).status_code(),
        400
    );
    assert_eq!(APIError::ServerError.status_code(), 500);
    assert_eq!(APIError::NotFound("x".to_string()).status_code(), 401);
    assert_eq!(APIError::InvalidCredentials.status_code(), 401);
    assert_eq!(APIError::AdminOnlyResource.status_code(), 403);
    assert_eq!(APIError::InsufficientPermissions.status_code(), 403);
    assert_eq!(APIError::RateLimit("k".to_string()).status_code(), 429);
    assert_eq!(APIError::InvalidQuery("q".to_string()).status_code(), 400);
}

#[test]
fn outbound_report_carries_code_kind_and_detail() {
    let out = APIError::RateLimit("alice".to_string()).to_outbound("too many".to_string());
    assert_eq!(out.status_code, 429);
    assert_eq!(out.kind, "RateLimit");
    assert_eq!(out.detail, Some("too many".to_string()));
}

#[test]
fn core_errors_surface_as_the_right_faults() {
    let rate = APIError::from_core_error(
        &CoreError::GrantError("alice".to_string(), 2),
        "d".to_string(),
    );
    assert_eq!(rate, APIError::RateLimit("alice".to_string()));
    let poisoned = APIError::from_core_error(&CoreError::PoisonError, "d".to_string());
    assert_eq!(poisoned, APIError::ServerError);
    // A carried backing-store fault is classified by its message even
    // through the core-error path.
    let carried = APIError::from_core_error(
        &CoreError::DatabaseQueryError(DatabaseQueryError::DbErr(
            "duplicate key value violates unique constraint".to_string(),
        )),
        "d".to_string(),
    );
    assert_eq!(carried, APIError::DuplicateError);
}

#[test]
fn validation_failure_texts_are_fixed() {
    assert_eq!(
        ValidationFailureKind::MismatchedDataType.detail(),
        "One or more fields contain data with mismatched types"
    );
    assert_eq!(
        ValidationFailureKind::RegexMatchFailure.detail(),
        "Regex match failure: data doesn't match regex"
    );
}

#[test]
fn query_errors_surface_as_usage_errors() {
    let e = APIError::from_query_error(
        &DatabaseQueryError::EmptyQuery,
        "empty query".to_string(),
    );
    assert_eq!(e, APIError::InvalidQuery("empty query".to_string()));
    let db = APIError::from_query_error(
        &DatabaseQueryError::DbErr("duplicate key value".to_string()),
        "d".to_string(),
    );
    assert_eq!(db, APIError::DuplicateError);
}
