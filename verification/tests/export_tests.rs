use central_repository::export::{
    csv_header, csv_row, push_i64_decimal, push_u64_decimal, reader_slice, rows_per_reader,
    stream_export_plan, ParallelStreamConfig,
};
use central_repository::json::{JsonNumber, JsonScalar, JsonValue};
use central_repository::records::{Record, RecordJsonData};
use central_repository::schema::{ColumnKind, ColumnSchema, Format, FormatSchema};
use central_repository::search::{PreparedSearchQuery, SearchQuery};

fn record_with(id: i64, data: Vec<(&str, JsonValue)>) -> Record {
    Record {
        id,
        upload_session_id: 3,
        format_id: 2,
        data: RecordJsonData(
            data.into_iter().map(|(k, v)| (k.to_string(), v)).collect(),
        ),
    }
}

fn number(text: &str) -> JsonValue {
    JsonValue::Scalar(JsonScalar::Num(JsonNumber {
        text: text.to_string(),
        float_representable: true,
    }))
}

fn string_value(text: &str) -> JsonValue {
    JsonValue::Scalar(JsonScalar::Str(text.to_string()))
}

#[test]
fn decimal_rendering_is_exact() {
    let mut out = Vec::new();
    push_u64_decimal(&mut out, 0);
    out.push(b' ');
    push_u64_decimal(&mut out, 1234567890);
    out.push(b' ');
    push_i64_decimal(&mut out, -42);
    out.push(b' ');
    push_i64_decimal(&mut out, i64::MIN);
    assert_eq!(out, b"0 1234567890 -42 -9223372036854775808");
}

#[test]
fn header_has_fixed_columns_then_quoted_names() {
    let header = csv_header(&vec!["amount".to_string(), "payee".to_string()]);
    assert_eq!(
        String::from_utf8(header).unwrap(),
        "\"ID\",\"FormatId\",\"UploadSessionId\",\"amount\",\"payee\"\n"
    );
}

#[test]
fn header_of_no_columns_is_just_the_fixed_part() {
    let header = csv_header(&vec![]);
    assert_eq!(
        String::from_utf8(header).unwrap(),
        "\"ID\",\"FormatId\",\"UploadSessionId\"\n"
    );
}

#[test]
fn row_renders_ids_cells_and_missing_values() {
    let record = record_with(11, vec![("amount", number("5")), ("payee", string_value("acme"))]);
    let columns = vec!["amount".to_string(), "payee".to_string(), "memo".to_string()];
    let row = csv_row(&record, &columns);
    // The payee cell renders as the JSON string "acme"; its embedded
    // quotes make the CSV layer wrap the cell and double them.
    assert_eq!(String::from_utf8(row).unwrap(), "11,2,3,5,\"\"\"acme\"\"\",\n");
}

#[test]
fn cells_holding_commas_are_quoted() {
    let record = record_with(1, vec![("memo", string_value("a,b"))]);
    let columns = vec!["memo".to_string()];
    let row = csv_row(&record, &columns);
    // The rendered JSON string is "a,b" (quoted); the embedded comma
    // and quotes make the CSV layer wrap the cell and double them.
    assert_eq!(String::from_utf8(row).unwrap(), "1,2,3,\"\"\"a,b\"\"\"\n");
}

#[test]
fn single_reader_streams_everything_in_order() {
    let rows: Vec<u32> = (0..7).collect();
    assert_eq!(rows_per_reader(7, 1), None);
    assert_eq!(reader_slice(rows.clone(), 0, None), rows);
}

#[test]
fn multi_reader_slices_cover_every_row_exactly_once() {
    let rows: Vec<u32> = (0..10).collect();
    let limit = rows_per_reader(10, 3);
    assert_eq!(limit, Some(4));
    let mut rebuilt: Vec<u32> = Vec::new();
    for reader in 0..3u64 {
        rebuilt.extend(reader_slice(rows.clone(), reader, limit));
    }
    assert_eq!(rebuilt, rows);
}

#[test]
fn multi_reader_split_of_nothing_is_empty() {
    let rows: Vec<u32> = Vec::new();
    let limit = rows_per_reader(0, 4);
    assert_eq!(limit, Some(0));
    for reader in 0..4u64 {
        assert!(reader_slice(rows.clone(), reader, limit).is_empty());
    }
}

#[test]
fn export_plan_carries_header_and_split() {
    let format = Format {
        id: 2,
        name: "payments".to_string(),
        description: String::new(),
        created_at: 0,
        schema: FormatSchema(vec![ColumnSchema {
            name: "amount".to_string(),
            regex: None,
            kind: ColumnKind::Number,
        }]),
        retention_period_minutes: 0,
    };
    let prepared = PreparedSearchQuery {
        formats: vec![format],
        query: SearchQuery { formats: None, upload_session: None, query: vec![] },
    };
    let config = ParallelStreamConfig::new(2, 16, 2);
    let plan = stream_export_plan(&prepared, 9, &config).expect("plan builds");
    assert_eq!(plan.compiled.visible_format_ids, vec![2]);
    assert_eq!(plan.columns, vec!["amount"]);
    assert_eq!(
        String::from_utf8(plan.header).unwrap(),
        "\"ID\",\"FormatId\",\"UploadSessionId\",\"amount\"\n"
    );
    assert_eq!(plan.rows_per_reader, Some(5));
}
