use cmdtable::commandtable::CommandTable;
use cmdtable::decode::decode_stream;
use cmdtable::errors::ScanError;
use cmdtable::normalize::{json_to_ndjson, normalize};
use cmdtable::schema::{Cell, DType, FieldSpec};

fn field(name: &str, dtype: DType, nullable: bool) -> FieldSpec {
    FieldSpec::new(name, dtype, nullable)
}

#[test]
fn ndjson_flattens_array_in_order() {
    let out = json_to_ndjson("[{\"a\":1}, {\"b\":2}]").unwrap();
    assert_eq!(out, "{\"a\":1}\n{\"b\":2}\n");
}

#[test]
fn ndjson_three_elements() {
    let out = json_to_ndjson("[1, 2, 3]").unwrap();
    assert_eq!(out, "1\n2\n3\n");
    assert_eq!(out.lines().count(), 3);
}

#[test]
fn ndjson_empty_array() {
    let out = json_to_ndjson("[]").unwrap();
    assert_eq!(out, "");
}

#[test]
fn ndjson_rejects_non_array() {
    assert_eq!(json_to_ndjson("{\"a\":1}"), Err(ScanError::ParseFailure));
}

#[test]
fn ndjson_rejects_malformed_json() {
    assert_eq!(json_to_ndjson("[1,]"), Err(ScanError::ParseFailure));
    assert_eq!(json_to_ndjson("not json"), Err(ScanError::ParseFailure));
}

#[test]
fn ndjson_output_reparses_with_serde() {
    let out = json_to_ndjson("[{\"k\":\"v\",\"n\":2.5}, [1,2], \"s\"]").unwrap();
    let lines: Vec<&str> = out.lines().collect();
    assert_eq!(lines.len(), 3);
    for line in lines {
        let v: serde_json::Value = serde_json::from_str(line).unwrap();
        assert!(!v.is_null());
    }
}

#[test]
fn normalize_single_is_identity() {
    let text = "{\"uptime\": \"3 days\", \"users\": 4}";
    let out = normalize(text, false).unwrap();
    assert_eq!(out, text);
}

#[test]
fn decode_matching_stream_field_by_field() {
    let schema = vec![
        field("a", DType::Int64, false),
        field("b", DType::Utf8, true),
    ];
    let b = decode_stream("{\"a\":1,\"b\":\"x\"}\n{\"a\":2,\"b\":\"y\"}", &schema).unwrap();
    assert_eq!(b.num_rows(), 2);
    assert_eq!(b.num_columns(), 2);
    assert!(matches!(b.columns[0][0], Cell::Int(1)));
    assert!(matches!(b.columns[0][1], Cell::Int(2)));
    assert!(matches!(&b.columns[1][0], Cell::Str(s) if s == "x"));
    assert!(matches!(&b.columns[1][1], Cell::Str(s) if s == "y"));
}

#[test]
fn decode_null_in_non_nullable_field_fails() {
    let schema = vec![field("a", DType::Int64, false)];
    assert!(matches!(
        decode_stream("{\"a\":null}", &schema),
        Err(ScanError::SchemaMismatch)
    ));
}

#[test]
fn decode_absent_non_nullable_field_fails() {
    let schema = vec![field("a", DType::Int64, false)];
    assert!(matches!(decode_stream("{\"b\":1}", &schema), Err(ScanError::SchemaMismatch)));
}

#[test]
fn decode_null_in_nullable_field_is_null_cell() {
    let schema = vec![field("a", DType::Int64, true)];
    let b = decode_stream("{\"a\":null}", &schema).unwrap();
    assert_eq!(b.num_rows(), 1);
    assert!(matches!(b.columns[0][0], Cell::Null));
}

#[test]
fn decode_empty_stream_yields_zero_rows() {
    let schema = vec![field("a", DType::Int64, false)];
    let b = decode_stream("", &schema).unwrap();
    assert_eq!(b.num_rows(), 0);
    assert_eq!(b.num_columns(), 1);
}

#[test]
fn decode_blank_lines_are_skipped() {
    let schema = vec![field("a", DType::Int64, false)];
    let b = decode_stream("{\"a\":1}\n\n{\"a\":2}\n", &schema).unwrap();
    assert_eq!(b.num_rows(), 2);
}

#[test]
fn decode_malformed_line_fails_parse() {
    let schema = vec![field("a", DType::Int64, true)];
    assert!(matches!(
        decode_stream("{\"a\":1}\nnot json", &schema),
        Err(ScanError::ParseFailure)
    ));
}

#[test]
fn decode_non_object_record_fails_schema() {
    let schema = vec![field("a", DType::Int64, true)];
    assert!(matches!(decode_stream("5", &schema), Err(ScanError::SchemaMismatch)));
}

#[test]
fn decode_type_mismatch_fails() {
    let schema = vec![field("a", DType::Int64, false)];
    assert!(matches!(
        decode_stream("{\"a\":\"five\"}", &schema),
        Err(ScanError::SchemaMismatch)
    ));
}

#[test]
fn decode_int_boundaries() {
    let schema = vec![field("a", DType::Int64, false)];
    let b = decode_stream("{\"a\":9223372036854775807}", &schema).unwrap();
    assert!(matches!(b.columns[0][0], Cell::Int(9223372036854775807)));
    let b = decode_stream("{\"a\":-9223372036854775808}", &schema).unwrap();
    assert!(matches!(b.columns[0][0], Cell::Int(-9223372036854775808)));
    assert!(matches!(
        decode_stream("{\"a\":9223372036854775808}", &schema),
        Err(ScanError::SchemaMismatch)
    ));
}

#[test]
fn decode_fractional_number_is_not_an_integer() {
    let schema = vec![field("a", DType::Int64, false)];
    assert!(matches!(
        decode_stream("{\"a\":1.5}", &schema),
        Err(ScanError::SchemaMismatch)
    ));
}

#[test]
fn decode_float_field_keeps_token_text() {
    let schema = vec![field("f", DType::Float64, false)];
    let b = decode_stream("{\"f\":1.25e3}", &schema).unwrap();
    assert!(matches!(&b.columns[0][0], Cell::Num(t) if t == "1.25e3"));
}

#[test]
fn decode_accepts_leading_zero_integers() {
    let schema = vec![field("a", DType::Int64, false)];
    let b = decode_stream("{\"a\":007}", &schema).unwrap();
    assert!(matches!(b.columns[0][0], Cell::Int(7)));
}

#[test]
fn ndjson_keeps_nested_structure_intact() {
    let out = json_to_ndjson("[{\"xs\":[1,2,{\"y\":null}]}, {\"xs\":[]}]").unwrap();
    assert_eq!(out, "{\"xs\":[1,2,{\"y\":null}]}\n{\"xs\":[]}\n");
}

#[test]
fn decode_boolean_field() {
    let schema = vec![field("ok", DType::Boolean, false)];
    let b = decode_stream("{\"ok\":true}", &schema).unwrap();
    assert!(matches!(b.columns[0][0], Cell::Bool(true)));
}

#[test]
fn decode_unicode_escape_in_string() {
    let schema = vec![field("s", DType::Utf8, false)];
    let b = decode_stream("{\"s\":\"\\u0041\\n\\\"\"}", &schema).unwrap();
    assert!(matches!(&b.columns[0][0], Cell::Str(s) if s == "A\n\""));
}

#[test]
fn scan_output_array_table_end_to_end() {
    let table = CommandTable {
        command: vec!["lsproc".to_string(), "-l".to_string()],
        jc_parser: "proc".to_string(),
        schema: vec![
            field("a", DType::Int64, true),
            field("b", DType::Utf8, true),
            field("c", DType::Boolean, true),
        ],
        is_result_array: true,
        hostname: "localhost".to_string(),
        args: vec![],
    };
    let stub = "[{\"a\":1,\"b\":\"x\",\"c\":null}, {\"a\":2,\"b\":\"y\",\"c\":true}]";
    let b = table.scan_output(stub).unwrap();
    assert_eq!(b.num_rows(), 2);
    assert_eq!(b.num_columns(), 3);
    assert!(matches!(b.columns[0][0], Cell::Int(1)));
    assert!(matches!(b.columns[0][1], Cell::Int(2)));
    assert!(matches!(&b.columns[1][0], Cell::Str(s) if s == "x"));
    assert!(matches!(&b.columns[1][1], Cell::Str(s) if s == "y"));
    assert!(matches!(b.columns[2][0], Cell::Null));
    assert!(matches!(b.columns[2][1], Cell::Bool(true)));
}

#[test]
fn scan_output_single_table_end_to_end() {
    let table = CommandTable {
        command: vec!["uptime".to_string()],
        jc_parser: "uptime".to_string(),
        schema: vec![field("users", DType::Int64, true)],
        is_result_array: false,
        hostname: "localhost".to_string(),
        args: vec![],
    };
    let b = table.scan_output("{\"users\": 4}").unwrap();
    assert_eq!(b.num_rows(), 1);
    assert!(matches!(b.columns[0][0], Cell::Int(4)));
}

#[test]
fn scan_output_empty_parser_output_is_not_a_failure() {
    let table = CommandTable {
        command: vec!["who".to_string()],
        jc_parser: "who".to_string(),
        schema: vec![field("user", DType::Utf8, true)],
        is_result_array: true,
        hostname: "localhost".to_string(),
        args: vec![],
    };
    let b = table.scan_output("[]").unwrap();
    assert_eq!(b.num_rows(), 0);
}
