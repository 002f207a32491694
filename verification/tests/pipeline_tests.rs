use pipeline_core::record::{Schema, Record, FieldValue, FieldType};
use pipeline_core::filter::{FilterSpec, MatchKind, apply, filter_data};
use pipeline_core::aggregate::{
    AggregationSpec, AggregationAccumulator, AggregationResult, FieldError, ReductionKind, fold,
    finalize,
};
use pipeline_core::pipeline::{run, run_records, aggregate_data, validate, ConfigError, VecSource};
use pipeline_core::text::{parse_i64, contains_substring};

fn schema_xv() -> Schema {
    Schema {
        names: vec!["x".to_string(), "v".to_string()],
        kinds: vec![FieldType::Text, FieldType::Number],
    }
}

fn rec(x: &str, v: i64) -> Record {
    Record { values: vec![FieldValue::Text(x.to_string()), FieldValue::Number(v)] }
}

fn three_records() -> Vec<Record> {
    vec![rec("a", 1), rec("b", 2), rec("a", 3)]
}

fn agg(field: &str, kind: ReductionKind) -> AggregationSpec {
    AggregationSpec { field: field.to_string(), kind }
}

fn filt(field: &str, value: &str, kind: MatchKind) -> FilterSpec {
    FilterSpec { field: field.to_string(), value: value.to_string(), kind }
}

#[test]
fn end_to_end_filter_sum() {
    let schema = schema_xv();
    let fs = Some(filt("x", "a", MatchKind::Exact));
    let res = run_records(&schema, three_records(), &fs, &agg("v", ReductionKind::Sum)).unwrap();
    assert_eq!(res.filtered_count, 2);
    assert_eq!(res.value, AggregationResult::Sum(4));
    assert_eq!(res.errors.len(), 0);
}

#[test]
fn end_to_end_average_no_filter() {
    let schema = schema_xv();
    let res =
        run_records(&schema, three_records(), &None, &agg("v", ReductionKind::Average)).unwrap();
    assert_eq!(res.filtered_count, 3);
    match res.value {
        AggregationResult::Average { sum, count } => {
            assert_eq!(sum, 6);
            assert_eq!(count, 3);
            assert_eq!(sum as f64 / count as f64, 2.0);
        },
        other => panic!("expected an average, got {:?}", other),
    }
    assert_eq!(res.errors.len(), 0);
}

#[test]
fn unknown_aggregation_field_aborts_before_run() {
    let schema = schema_xv();
    let res = run_records(&schema, three_records(), &None, &agg("z", ReductionKind::Sum));
    assert_eq!(res.unwrap_err(), ConfigError::UnknownAggregationField);
}

#[test]
fn unknown_filter_field_aborts() {
    let schema = schema_xv();
    let fs = Some(filt("nope", "a", MatchKind::Exact));
    let res = run_records(&schema, three_records(), &fs, &agg("v", ReductionKind::Sum));
    assert_eq!(res.unwrap_err(), ConfigError::UnknownFilterField);
}

#[test]
fn non_numeric_aggregation_field_aborts() {
    let schema = schema_xv();
    let res = run_records(&schema, three_records(), &None, &agg("x", ReductionKind::Sum));
    assert_eq!(res.unwrap_err(), ConfigError::NonNumericAggregationField);
    // count is exempt from the numeric requirement
    let res = run_records(&schema, three_records(), &None, &agg("x", ReductionKind::Count));
    assert!(res.is_ok());
}

#[test]
fn filtered_count_matches_apply() {
    let schema = schema_xv();
    let records = three_records();
    let fs = filt("x", "a", MatchKind::Exact);
    let by_apply = records.iter().filter(|r| apply(&schema, r, &fs)).count();
    let res =
        run_records(&schema, records, &Some(fs), &agg("v", ReductionKind::Count)).unwrap();
    assert_eq!(res.filtered_count, by_apply);
    assert_eq!(res.filtered_count, 2);
}

#[test]
fn count_equals_retained_records() {
    let schema = schema_xv();
    // one record is missing the target field entirely: count still counts it
    let mut records = three_records();
    records.push(Record { values: vec![FieldValue::Text("a".to_string()), FieldValue::Absent] });
    let res = run_records(&schema, records, &None, &agg("v", ReductionKind::Count)).unwrap();
    assert_eq!(res.filtered_count, 4);
    assert_eq!(res.value, AggregationResult::Count(4));
    assert_eq!(res.errors.len(), 0);
}

#[test]
fn sum_min_max_match_direct_reduction_any_order() {
    let schema = schema_xv();
    for records in [
        vec![rec("a", 5), rec("b", -2), rec("c", 9)],
        vec![rec("c", 9), rec("b", -2), rec("a", 5)],
        vec![rec("b", -2), rec("a", 5), rec("c", 9)],
    ] {
        let sum = run_records(
            &schema,
            records.iter().map(clone_rec).collect(),
            &None,
            &agg("v", ReductionKind::Sum),
        )
        .unwrap();
        assert_eq!(sum.value, AggregationResult::Sum(5 + (-2) + 9));
        let mn = run_records(
            &schema,
            records.iter().map(clone_rec).collect(),
            &None,
            &agg("v", ReductionKind::Min),
        )
        .unwrap();
        assert_eq!(mn.value, AggregationResult::Min(-2));
        let mx =
            run_records(&schema, records, &None, &agg("v", ReductionKind::Max)).unwrap();
        assert_eq!(mx.value, AggregationResult::Max(9));
    }
}

#[test]
fn average_of_nothing_is_no_data() {
    let schema = schema_xv();
    let res =
        run_records(&schema, Vec::new(), &None, &agg("v", ReductionKind::Average)).unwrap();
    assert_eq!(res.value, AggregationResult::NoData);
    // all records missing the field: still no data, never a fault
    let absent = Record { values: vec![FieldValue::Text("a".to_string()), FieldValue::Absent] };
    let res = run_records(&schema, vec![absent], &None, &agg("v", ReductionKind::Average))
        .unwrap();
    assert_eq!(res.value, AggregationResult::NoData);
    assert_eq!(res.errors, vec![FieldError::Missing]);
}

#[test]
fn missing_field_leaves_accumulator_untouched() {
    let schema = schema_xv();
    let mut acc = AggregationAccumulator::new();
    let ok = fold(&mut acc, &schema, &rec("a", 7), &agg("v", ReductionKind::Sum));
    assert!(ok.is_ok());
    let before = acc;
    let absent = Record { values: vec![FieldValue::Text("b".to_string()), FieldValue::Absent] };
    let r = fold(&mut acc, &schema, &absent, &agg("v", ReductionKind::Sum));
    assert_eq!(r.unwrap_err(), FieldError::Missing);
    assert_eq!(acc.count, before.count);
    assert_eq!(acc.sum, before.sum);
    assert_eq!(acc.min, before.min);
    assert_eq!(acc.max, before.max);
    // through a whole run: exactly one Missing error is logged
    let records = vec![rec("a", 7), absent_record()];
    let res = run_records(&schema, records, &None, &agg("v", ReductionKind::Sum)).unwrap();
    assert_eq!(res.errors, vec![FieldError::Missing]);
    assert_eq!(res.value, AggregationResult::Sum(7));
}

fn absent_record() -> Record {
    Record { values: vec![FieldValue::Text("b".to_string()), FieldValue::Absent] }
}

#[test]
fn type_mismatch_is_logged_and_skipped() {
    let schema = Schema {
        names: vec!["x".to_string(), "v".to_string()],
        kinds: vec![FieldType::Text, FieldType::Number],
    };
    let odd = Record {
        values: vec![
            FieldValue::Text("a".to_string()),
            FieldValue::Text("not a number".to_string()),
        ],
    };
    let records = vec![rec("a", 3), odd];
    let res = run_records(&schema, records, &None, &agg("v", ReductionKind::Sum)).unwrap();
    assert_eq!(res.errors, vec![FieldError::TypeMismatch]);
    assert_eq!(res.value, AggregationResult::Sum(3));
}

#[test]
fn min_and_max_reductions() {
    let schema = schema_xv();
    let records = vec![rec("a", 5), rec("b", -2), rec("c", 9)];
    let res = run_records(
        &schema,
        records.iter().map(clone_rec).collect(),
        &None,
        &agg("v", ReductionKind::Min),
    )
    .unwrap();
    assert_eq!(res.value, AggregationResult::Min(-2));
    let res = run_records(&schema, records, &None, &agg("v", ReductionKind::Max)).unwrap();
    assert_eq!(res.value, AggregationResult::Max(9));
    // min/max over no data
    let res =
        run_records(&schema, Vec::new(), &None, &agg("v", ReductionKind::Min)).unwrap();
    assert_eq!(res.value, AggregationResult::NoData);
}

fn clone_rec(r: &Record) -> Record {
    pipeline_core::record::clone_record(r)
}

#[test]
fn filter_semantics() {
    let schema = schema_xv();
    let r = rec("alphabet", 1);
    // substring
    assert!(apply(&schema, &r, &filt("x", "phab", MatchKind::Contains)));
    assert!(!apply(&schema, &r, &filt("x", "zz", MatchKind::Contains)));
    // exact
    assert!(apply(&schema, &r, &filt("x", "alphabet", MatchKind::Exact)));
    assert!(!apply(&schema, &r, &filt("x", "alpha", MatchKind::Exact)));
    // a numeric field never matches
    assert!(!apply(&schema, &r, &filt("v", "1", MatchKind::Exact)));
    // an absent field never matches
    let a = Record { values: vec![FieldValue::Absent, FieldValue::Number(1)] };
    assert!(!apply(&schema, &a, &filt("x", "a", MatchKind::Exact)));
}

#[test]
fn filter_data_keeps_matches_in_order() {
    let schema = schema_xv();
    let records = three_records();
    let kept = filter_data(&schema, &records, &filt("x", "a", MatchKind::Exact));
    assert_eq!(kept.len(), 2);
    assert_eq!(kept[0].values[1], FieldValue::Number(1));
    assert_eq!(kept[1].values[1], FieldValue::Number(3));
}

#[test]
fn aggregate_data_reports_value_and_errors() {
    let schema = schema_xv();
    let records = three_records();
    let (value, errors) =
        aggregate_data(&schema, &records, &agg("v", ReductionKind::Sum)).unwrap();
    assert_eq!(value, AggregationResult::Sum(6));
    assert_eq!(errors.len(), 0);
}

#[test]
fn validate_checks_fields_before_run() {
    let schema = schema_xv();
    assert!(validate(&schema, &None, &agg("v", ReductionKind::Sum)).is_ok());
    assert_eq!(
        validate(&schema, &None, &agg("z", ReductionKind::Sum)).unwrap_err(),
        ConfigError::UnknownAggregationField
    );
}

#[test]
fn vec_source_streams_in_order() {
    let schema = schema_xv();
    let mut src = VecSource::new(three_records());
    let mut res = run(&mut src, &schema, &None, &agg("v", ReductionKind::Sum)).unwrap();
    assert_eq!(res.filtered_count, 3);
    assert_eq!(res.value, AggregationResult::Sum(6));
    // the source is exhausted and non-restartable: a second run sees nothing
    res = run(&mut src, &schema, &None, &agg("v", ReductionKind::Sum)).unwrap();
    assert_eq!(res.filtered_count, 0);
    assert_eq!(res.value, AggregationResult::Sum(0));
}

#[test]
fn finalize_is_a_pure_read() {
    let schema = schema_xv();
    let mut acc = AggregationAccumulator::new();
    fold(&mut acc, &schema, &rec("a", 4), &agg("v", ReductionKind::Average)).unwrap();
    let before = acc;
    let v1 = finalize(&acc, ReductionKind::Average);
    let v2 = finalize(&acc, ReductionKind::Average);
    assert_eq!(v1, v2);
    assert_eq!(acc.count, before.count);
    assert_eq!(acc.sum, before.sum);
}

#[test]
fn parse_i64_exact_values() {
    assert_eq!(parse_i64("123"), Some(123));
    assert_eq!(parse_i64("-45"), Some(-45));
    assert_eq!(parse_i64("0"), Some(0));
    assert_eq!(parse_i64(""), None);
    assert_eq!(parse_i64("-"), None);
    assert_eq!(parse_i64("12a"), None);
    assert_eq!(parse_i64("999999999999999999"), Some(999999999999999999));
    assert_eq!(parse_i64("9999999999999999999"), None);
    assert_eq!(parse_i64("9223372036854775807"), Some(i64::MAX));
    assert_eq!(parse_i64("-9223372036854775808"), Some(i64::MIN));
    assert_eq!(parse_i64("9223372036854775808"), None);
    assert_eq!(parse_i64("-9223372036854775809"), None);
    assert_eq!(parse_i64("0009"), Some(9));
}

#[test]
fn substring_search() {
    assert!(contains_substring("hello world", "lo wo"));
    assert!(contains_substring("hello", ""));
    assert!(!contains_substring("hello", "world"));
    assert!(!contains_substring("ab", "abc"));
}
