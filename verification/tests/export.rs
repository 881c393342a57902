use kaflow::export::{export_header_line, serialize_export_row, ExportFormat};
use kaflow::search::MessageResult;

fn row(key: &str, payload: &str, headers: Vec<(&str, &str)>) -> MessageResult {
    MessageResult {
        matched_field: Some("P.x".to_string()),
        raw_index_key_hex: None,
        pretty_index_key: None,
        raw_meta_key_hex: String::new(),
        pretty_meta_key: String::new(),
        content_source: "full".to_string(),
        meta_index_entries: Vec::new(),
        raw_meta_value_json: None,
        field_values: Vec::new(),
        topic: "orders".to_string(),
        partition: 2,
        offset: -1,
        timestamp: "2024-01-01T00:00:00Z".to_string(),
        key: key.to_string(),
        payload: payload.to_string(),
        headers: headers
            .into_iter()
            .map(|(k, v)| (k.to_string(), v.to_string()))
            .collect(),
        json: String::new(),
    }
}

#[test]
fn header_lines_per_format() {
    assert_eq!(
        export_header_line(ExportFormat::Csv).as_deref(),
        Some("topic,partition,offset,timestamp,key,headers,payload\n")
    );
    assert_eq!(
        export_header_line(ExportFormat::Tsv).as_deref(),
        Some("topic\tpartition\toffset\ttimestamp\tkey\theaders\tpayload\n")
    );
    assert_eq!(export_header_line(ExportFormat::Jsonl), None);
}

#[test]
fn jsonl_row_escapes_and_orders_keys() {
    let r = row("k\"1", "{\"a\":1}", vec![("h", "v")]);
    let line = serialize_export_row(&r, ExportFormat::Jsonl);
    assert_eq!(
        line,
        "{\"headers\":{\"h\":\"v\"},\"key\":\"k\\\"1\",\"offset\":-1,\"partition\":2,\
         \"payload\":\"{\\\"a\\\":1}\",\"topic\":\"orders\",\"ts\":\"2024-01-01T00:00:00Z\"}\n"
    );
}

#[test]
fn jsonl_repeated_header_keeps_the_last() {
    let r = row("k", "p", vec![("h", "1"), ("h", "2")]);
    let line = serialize_export_row(&r, ExportFormat::Jsonl);
    assert!(line.starts_with("{\"headers\":{\"h\":\"2\"},"));
}

#[test]
fn csv_quotes_fields_that_need_it() {
    let r = row("a,b", "say \"hi\"", Vec::new());
    let line = serialize_export_row(&r, ExportFormat::Csv);
    assert_eq!(
        line,
        "orders,2,-1,2024-01-01T00:00:00Z,\"a,b\",{},\"say \"\"hi\"\"\"\n"
    );
}

#[test]
fn csv_headers_column_is_quoted_json() {
    let r = row("k", "p", vec![("x", "1")]);
    let line = serialize_export_row(&r, ExportFormat::Csv);
    assert_eq!(
        line,
        "orders,2,-1,2024-01-01T00:00:00Z,k,\"{\"\"x\"\":\"\"1\"\"}\",p\n"
    );
}

#[test]
fn tsv_replaces_tabs_and_line_breaks() {
    let r = row("a\tb", "line1\nline2\r", Vec::new());
    let line = serialize_export_row(&r, ExportFormat::Tsv);
    assert_eq!(
        line,
        "orders\t2\t-1\t2024-01-01T00:00:00Z\ta b\t{}\tline1 line2 \n"
    );
}

#[test]
fn rows_agreeing_on_the_columns_are_written_alike() {
    let a = row("k", "p", vec![("h", "v")]);
    let mut b = row("k", "p", vec![("h", "v")]);
    b.matched_field = None;
    b.content_source = "meta-only".to_string();
    b.json = "other".to_string();
    b.field_values = vec![("P.x".to_string(), "1".to_string())];
    for f in [ExportFormat::Jsonl, ExportFormat::Csv, ExportFormat::Tsv] {
        assert_eq!(serialize_export_row(&a, f), serialize_export_row(&b, f));
    }
}
