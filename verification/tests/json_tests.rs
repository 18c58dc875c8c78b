use central_repository::json::{
    push_rendered_scalar, push_rendered_value, JsonNumber, JsonScalar, JsonValue,
};
use central_repository::records::{RangeFilter, UploadSessionFilter};
use central_repository::records::{OutcomeKind, UploadSession};

fn render(v: &JsonValue) -> String {
    let mut out = Vec::new();
    push_rendered_value(&mut out, v);
    String::from_utf8(out).unwrap()
}

#[test]
fn scalars_render_like_compact_json() {
    assert_eq!(render(&JsonValue::Scalar(JsonScalar::Null)), "null");
    assert_eq!(render(&JsonValue::Scalar(JsonScalar::Bool(true))), "true");
    assert_eq!(render(&JsonValue::Scalar(JsonScalar::Bool(false))), "false");
    assert_eq!(
        render(&JsonValue::Scalar(JsonScalar::Num(JsonNumber {
            text: "3.25".to_string(),
            float_representable: true,
        }))),
        "3.25"
    );
    assert_eq!(render(&JsonValue::Scalar(JsonScalar::Str("acme".to_string()))), "\"acme\"");
}

#[test]
fn strings_escape_quotes_and_control_characters() {
    let v = JsonValue::Scalar(JsonScalar::Str("a\"b\\c\nd".to_string()));
    assert_eq!(render(&v), "\"a\\\"b\\\\c\\nd\"");
}

#[test]
fn arrays_render_comma_separated() {
    let v = JsonValue::Array(vec![
        JsonScalar::Num(JsonNumber { text: "1".to_string(), float_representable: true }),
        JsonScalar::Str("x".to_string()),
        JsonScalar::Null,
    ]);
    assert_eq!(render(&v), "[1,\"x\",null]");
}

#[test]
fn composites_render_as_their_carried_text() {
    let v = JsonValue::Composite("{\"a\":1}".to_string());
    assert_eq!(render(&v), "{\"a\":1}");
}

#[test]
fn scalar_rendering_appends() {
    let mut out = b"x=".to_vec();
    push_rendered_scalar(&mut out, &JsonScalar::Num(JsonNumber {
        text: "7".to_string(),
        float_representable: true,
    }));
    assert_eq!(out, b"x=7");
}

#[test]
fn kind_probes_match_the_variants() {
    let n = JsonValue::Scalar(JsonScalar::Num(JsonNumber {
        text: "1".to_string(),
        float_representable: true,
    }));
    let s = JsonValue::Scalar(JsonScalar::Str("x".to_string()));
    assert!(n.is_number());
    assert!(!n.is_string());
    assert!(s.is_string());
    assert!(!s.is_number());
}

#[test]
fn session_filters_check_every_present_knob() {
    let session = UploadSession {
        id: 5,
        created_at: 1000,
        record_count: 3,
        format_id: 2,
        user_id: 7,
        outcome: OutcomeKind::Success,
        detail: String::new(),
    };
    let open_filter = UploadSessionFilter {
        id: RangeFilter::any(),
        created_at: RangeFilter::any(),
        record_count: RangeFilter::any(),
        format_id: RangeFilter::any(),
        user_id_eq: None,
        outcome_eq: None,
    };
    assert!(open_filter.admits(&session));
    let narrowed = UploadSessionFilter {
        created_at: RangeFilter { gte: Some(900), lt: Some(1100), ..RangeFilter::any() },
        outcome_eq: Some(OutcomeKind::Success),
        ..open_filter
    };
    assert!(narrowed.admits(&session));
    let rejecting = UploadSessionFilter {
        outcome_eq: Some(OutcomeKind::Error),
        ..open_filter
    };
    assert!(!rejecting.admits(&session));
    let bounded = UploadSessionFilter {
        record_count: RangeFilter { lt: Some(3), ..RangeFilter::any() },
        ..open_filter
    };
    assert!(!bounded.admits(&session));
    let owner = UploadSessionFilter { user_id_eq: Some(7), ..open_filter };
    assert!(owner.admits(&session));
    let other_owner = UploadSessionFilter { user_id_eq: Some(8), ..open_filter };
    assert!(!other_owner.admits(&session));
}
