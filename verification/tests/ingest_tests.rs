use pipeline_core::record::{Schema, FieldValue, FieldType};
use pipeline_core::aggregate::{AggregationSpec, AggregationResult, FieldError, ReductionKind};
use pipeline_core::filter::{FilterSpec, MatchKind};
use pipeline_core::ingest::{ingest_csv, ingest_json, cell_value, leaf_to_value, JsonLeaf,
    SourceError};
use pipeline_core::pipeline::run_records;

#[test]
fn csv_text_becomes_schema_and_records() {
    let text = "x,v\na,1\nb,2\na,3\n";
    let kinds = vec![FieldType::Text, FieldType::Number];
    let (schema, records, errors) = ingest_csv(text, &kinds).unwrap();
    assert_eq!(schema.names, vec!["x".to_string(), "v".to_string()]);
    assert_eq!(schema.kinds, kinds);
    assert_eq!(records.len(), 3);
    assert_eq!(errors.len(), 0);
    assert_eq!(records[0].values[0], FieldValue::Text("a".to_string()));
    assert_eq!(records[0].values[1], FieldValue::Number(1));
    assert_eq!(records[2].values[1], FieldValue::Number(3));
}

#[test]
fn csv_bad_cell_is_one_recoverable_error() {
    let text = "x,v\na,1\nb,oops\nc,3\n";
    let kinds = vec![FieldType::Text, FieldType::Number];
    let (_, records, errors) = ingest_csv(text, &kinds).unwrap();
    assert_eq!(records.len(), 2);
    assert_eq!(errors, vec![FieldError::ParseFailure]);
    assert_eq!(records[1].values[1], FieldValue::Number(3));
}

#[test]
fn csv_empty_numeric_cell_is_absent() {
    let text = "x,v\na,\n";
    let kinds = vec![FieldType::Text, FieldType::Number];
    let (_, records, errors) = ingest_csv(text, &kinds).unwrap();
    assert_eq!(records.len(), 1);
    assert_eq!(errors.len(), 0);
    assert_eq!(records[0].values[1], FieldValue::Absent);
}

#[test]
fn csv_without_any_row_has_no_header() {
    let kinds = vec![FieldType::Text];
    assert_eq!(ingest_csv("", &kinds).unwrap_err(), SourceError::MissingHeader);
}

#[test]
fn csv_header_width_must_fit_declared_types() {
    let kinds = vec![FieldType::Text];
    assert_eq!(
        ingest_csv("x,v\na,1\n", &kinds).unwrap_err(),
        SourceError::SchemaMismatch
    );
}

#[test]
fn csv_end_to_end_filter_and_sum() {
    let text = "x,v\na,1\nb,2\na,3\n";
    let kinds = vec![FieldType::Text, FieldType::Number];
    let (schema, records, _) = ingest_csv(text, &kinds).unwrap();
    let fs = Some(FilterSpec {
        field: "x".to_string(),
        value: "a".to_string(),
        kind: MatchKind::Exact,
    });
    let agg = AggregationSpec { field: "v".to_string(), kind: ReductionKind::Sum };
    let res = run_records(&schema, records, &fs, &agg).unwrap();
    assert_eq!(res.filtered_count, 2);
    assert_eq!(res.value, AggregationResult::Sum(4));
    assert_eq!(res.errors.len(), 0);
}

fn schema_xv() -> Schema {
    Schema {
        names: vec!["x".to_string(), "v".to_string()],
        kinds: vec![FieldType::Text, FieldType::Number],
    }
}

#[test]
fn json_array_of_objects_becomes_records() {
    let text = "[{\"x\":\"a\",\"v\":1},{\"x\":\"b\",\"v\":2}]";
    let (records, errors) = ingest_json(text, &schema_xv()).unwrap();
    assert_eq!(records.len(), 2);
    assert_eq!(errors.len(), 0);
    assert_eq!(records[0].values[0], FieldValue::Text("a".to_string()));
    assert_eq!(records[0].values[1], FieldValue::Number(1));
    assert_eq!(records[1].values[1], FieldValue::Number(2));
}

#[test]
fn json_missing_key_is_absent() {
    let text = "[{\"x\":\"a\"}]";
    let (records, errors) = ingest_json(text, &schema_xv()).unwrap();
    assert_eq!(errors.len(), 0);
    assert_eq!(records[0].values[1], FieldValue::Absent);
}

#[test]
fn json_wrong_type_is_one_recoverable_error() {
    let text = "[{\"x\":\"a\",\"v\":\"oops\"},{\"x\":\"b\",\"v\":2}]";
    let (records, errors) = ingest_json(text, &schema_xv()).unwrap();
    assert_eq!(records.len(), 1);
    assert_eq!(errors, vec![FieldError::TypeMismatch]);
    assert_eq!(records[0].values[1], FieldValue::Number(2));
}

#[test]
fn json_that_is_not_an_array_is_fatal() {
    assert_eq!(
        ingest_json("{\"x\":1}", &schema_xv()).unwrap_err(),
        SourceError::Malformed
    );
    assert_eq!(ingest_json("not json", &schema_xv()).unwrap_err(), SourceError::Malformed);
}

#[test]
fn json_end_to_end_average() {
    let text = "[{\"x\":\"a\",\"v\":1},{\"x\":\"b\",\"v\":2},{\"x\":\"a\",\"v\":3}]";
    let (records, _) = ingest_json(text, &schema_xv()).unwrap();
    let agg = AggregationSpec { field: "v".to_string(), kind: ReductionKind::Average };
    let res = run_records(&schema_xv(), records, &None, &agg).unwrap();
    assert_eq!(res.filtered_count, 3);
    match res.value {
        AggregationResult::Average { sum, count } => {
            assert_eq!(sum as f64 / count as f64, 2.0);
        },
        other => panic!("expected an average, got {:?}", other),
    }
}

#[test]
fn cell_conversion_by_declared_type() {
    assert_eq!(
        cell_value(FieldType::Text, &"hi".to_string()).unwrap(),
        FieldValue::Text("hi".to_string())
    );
    assert_eq!(
        cell_value(FieldType::Number, &"-7".to_string()).unwrap(),
        FieldValue::Number(-7)
    );
    assert_eq!(cell_value(FieldType::Number, &"".to_string()).unwrap(), FieldValue::Absent);
    assert_eq!(
        cell_value(FieldType::Number, &"x1".to_string()).unwrap_err(),
        FieldError::ParseFailure
    );
}

#[test]
fn leaf_conversion_by_declared_type() {
    assert_eq!(
        leaf_to_value(FieldType::Text, &JsonLeaf::Text("a".to_string())).unwrap(),
        FieldValue::Text("a".to_string())
    );
    assert_eq!(
        leaf_to_value(FieldType::Number, &JsonLeaf::Int(4)).unwrap(),
        FieldValue::Number(4)
    );
    assert_eq!(leaf_to_value(FieldType::Number, &JsonLeaf::Null).unwrap(), FieldValue::Absent);
    assert_eq!(
        leaf_to_value(FieldType::Number, &JsonLeaf::Text("a".to_string())).unwrap_err(),
        FieldError::TypeMismatch
    );
    assert_eq!(
        leaf_to_value(FieldType::Text, &JsonLeaf::Int(1)).unwrap_err(),
        FieldError::TypeMismatch
    );
    assert_eq!(
        leaf_to_value(FieldType::Number, &JsonLeaf::Other).unwrap_err(),
        FieldError::ParseFailure
    );
}

#[test]
fn csv_malformed_row_is_one_recoverable_error() {
    // the middle row has the wrong field count: it is skipped, the rest of
    // the input is still produced
    let text = "x,v\na,1\nb\nc,3\n";
    let kinds = vec![FieldType::Text, FieldType::Number];
    let (_, records, errors) = ingest_csv(text, &kinds).unwrap();
    assert_eq!(errors, vec![FieldError::ParseFailure]);
    assert_eq!(records.len(), 2);
    assert_eq!(records[0].values[1], FieldValue::Number(1));
    assert_eq!(records[1].values[1], FieldValue::Number(3));
}
