use check_postgresql::evaluate::{evaluate_row, evaluate_rows, prepare_thresholds, render_row,
    i64_to_string, RawColumn};
use check_postgresql::numeric::{ColumnType, Int64};
use check_postgresql::status::{CheckError, Status, StatusType};
use check_postgresql::thresholds::{parse_thresholds, thresholds_or_default};

fn int8_col(v: i64) -> RawColumn {
    RawColumn { ty: ColumnType::Int8, data: v.to_be_bytes().to_vec() }
}

fn one_row(vals: &[i64]) -> Vec<Vec<RawColumn>> {
    vec![vals.iter().map(|&v| int8_col(v)).collect()]
}

#[test]
fn defaults_are_one_and_two() {
    let (warn, crit) = prepare_thresholds(None, None).unwrap();
    assert_eq!(warn, vec![1]);
    assert_eq!(crit, vec![2]);
}

#[test]
fn default_row_zero_is_ok() {
    let (warn, crit) = prepare_thresholds(None, None).unwrap();
    let st = evaluate_rows(&warn, &crit, &one_row(&[0]));
    assert_eq!(st.t, StatusType::OK);
    assert_eq!(st.t.exit_code(), 0);
    assert_eq!(st.description, "Result:(0)");
    assert_eq!(st.render(), "OK|Result:(0)");
}

#[test]
fn default_row_one_is_warning() {
    let (warn, crit) = prepare_thresholds(None, None).unwrap();
    let st = evaluate_rows(&warn, &crit, &one_row(&[1]));
    assert_eq!(st.t, StatusType::WARNING);
    assert_eq!(st.t.exit_code(), 1);
    assert_eq!(st.render(), "WARNING|Result:(1)");
}

#[test]
fn default_row_two_is_critical() {
    let (warn, crit) = prepare_thresholds(None, None).unwrap();
    let st = evaluate_rows(&warn, &crit, &one_row(&[2]));
    assert_eq!(st.t, StatusType::CRITICAL);
    assert_eq!(st.t.exit_code(), 2);
    assert_eq!(st.render(), "CRITICAL|Result:(2)");
}

#[test]
fn warn_column_without_critical_is_warning() {
    let (warn, crit) = prepare_thresholds(Some("5,5"), Some("10,10")).unwrap();
    let st = evaluate_rows(&warn, &crit, &one_row(&[6, 1]));
    assert_eq!(st.t, StatusType::WARNING);
    assert_eq!(st.t.exit_code(), 1);
    assert_eq!(st.description, "Result:(6,1)");
}

#[test]
fn later_critical_column_overrides_warning() {
    let (warn, crit) = prepare_thresholds(Some("5,5"), Some("10,10")).unwrap();
    let st = evaluate_rows(&warn, &crit, &one_row(&[1, 11]));
    assert_eq!(st.t, StatusType::CRITICAL);
    assert_eq!(st.t.exit_code(), 2);
    assert_eq!(st.description, "Result:(1,11)");
}

#[test]
fn value_equal_to_threshold_triggers() {
    let st = evaluate_row(&vec![5], &vec![5], &vec![9]);
    assert_eq!(st, StatusType::WARNING);
    let st = evaluate_row(&vec![9], &vec![5], &vec![9]);
    assert_eq!(st, StatusType::CRITICAL);
    let st = evaluate_row(&vec![4], &vec![5], &vec![9]);
    assert_eq!(st, StatusType::OK);
}

#[test]
fn critical_checked_independently_of_warning() {
    // The critical scan runs on its own: a column may reach critical without
    // reaching warning.
    let st = evaluate_row(&vec![4], &vec![5], &vec![3]);
    assert_eq!(st, StatusType::CRITICAL);
}

#[test]
fn mismatched_vector_lengths_are_unknown() {
    let err = prepare_thresholds(Some("1,2"), Some("3")).unwrap_err();
    assert_eq!(err.t, StatusType::UNKNOWN);
    assert_eq!(err.description, "Size of integer arrays need to match");
    assert_eq!(err.render(), "UNKNOWN|Size of integer arrays need to match");
    assert_eq!(err.t.exit_code(), 3);
}

#[test]
fn default_against_wider_list_is_unknown() {
    let err = prepare_thresholds(None, Some("2,2")).unwrap_err();
    assert_eq!(err.t, StatusType::UNKNOWN);
    assert_eq!(err.description, "Size of integer arrays need to match");
}

#[test]
fn row_width_mismatch_is_unknown() {
    let (warn, crit) = prepare_thresholds(None, None).unwrap();
    let st = evaluate_rows(&warn, &crit, &one_row(&[1, 2]));
    assert_eq!(st.t, StatusType::UNKNOWN);
    assert_eq!(st.description, "Size of result set and integer array need to match");
}

#[test]
fn empty_row_set_is_unknown() {
    let (warn, crit) = prepare_thresholds(None, None).unwrap();
    let st = evaluate_rows(&warn, &crit, &Vec::new());
    assert_eq!(st.t, StatusType::UNKNOWN);
    assert_eq!(st.description, "Query did return empty row set");
    assert_eq!(st.t.exit_code(), 3);
}

#[test]
fn unrecognized_column_type_is_reported_not_a_crash() {
    let (warn, crit) = prepare_thresholds(None, None).unwrap();
    let rows = vec![vec![RawColumn { ty: ColumnType::Other, data: vec![1, 2, 3, 4] }]];
    let st = evaluate_rows(&warn, &crit, &rows);
    assert_eq!(st.t, StatusType::UNKNOWN);
    assert_eq!(st.description, "Unsupported column type in result set");
}

#[test]
fn malformed_column_width_is_reported() {
    let (warn, crit) = prepare_thresholds(None, None).unwrap();
    let rows = vec![vec![RawColumn { ty: ColumnType::Int4, data: vec![1, 2, 3] }]];
    let st = evaluate_rows(&warn, &crit, &rows);
    assert_eq!(st.t, StatusType::UNKNOWN);
    assert_eq!(st.description, "Malformed column value in result set");
}

#[test]
fn first_row_alone_decides_the_report() {
    let (warn, crit) = prepare_thresholds(None, None).unwrap();
    let rows = vec![vec![int8_col(0)], vec![int8_col(100)]];
    let st = evaluate_rows(&warn, &crit, &rows);
    assert_eq!(st.t, StatusType::OK);
    assert_eq!(st.description, "Result:(0)");
}

#[test]
fn rendering_a_pair_round_trips() {
    assert_eq!(render_row(&vec![3, 7]), "Result:(3,7)");
}

#[test]
fn rendering_a_single_value_round_trips() {
    assert_eq!(render_row(&vec![5]), "Result:(5)");
}

#[test]
fn rendering_negative_and_extreme_values() {
    assert_eq!(i64_to_string(0), "0");
    assert_eq!(i64_to_string(-123), "-123");
    assert_eq!(i64_to_string(i64::MAX), "9223372036854775807");
    assert_eq!(i64_to_string(i64::MIN), "-9223372036854775808");
    assert_eq!(render_row(&vec![-1, 0, 10]), "Result:(-1,0,10)");
    assert_eq!(render_row(&Vec::new()), "Result:()");
}

#[test]
fn threshold_lists_parse_in_order() {
    assert_eq!(parse_thresholds("1,2,3").unwrap(), vec![1, 2, 3]);
    assert_eq!(parse_thresholds("7").unwrap(), vec![7]);
    assert_eq!(parse_thresholds("-5,0").unwrap(), vec![-5, 0]);
    assert_eq!(parse_thresholds("9223372036854775807").unwrap(), vec![i64::MAX]);
    assert_eq!(parse_thresholds("-9223372036854775808").unwrap(), vec![i64::MIN]);
}

#[test]
fn bad_threshold_tokens_are_configuration_errors() {
    assert_eq!(parse_thresholds("1,x").unwrap_err(), CheckError::InvalidThreshold);
    assert_eq!(parse_thresholds("").unwrap_err(), CheckError::InvalidThreshold);
    assert_eq!(parse_thresholds("-").unwrap_err(), CheckError::InvalidThreshold);
    assert_eq!(parse_thresholds("1,,2").unwrap_err(), CheckError::InvalidThreshold);
    assert_eq!(parse_thresholds("1.5").unwrap_err(), CheckError::InvalidThreshold);
    assert_eq!(parse_thresholds("9223372036854775808").unwrap_err(), CheckError::InvalidThreshold);
    assert_eq!(parse_thresholds("-9223372036854775809").unwrap_err(), CheckError::InvalidThreshold);
    let err = prepare_thresholds(Some("a"), None).unwrap_err();
    assert_eq!(err.t, StatusType::UNKNOWN);
    assert_eq!(err.description, "Invalid threshold list");
}

#[test]
fn absent_list_defaults_to_single_element() {
    assert_eq!(thresholds_or_default(None, 1).unwrap(), vec![1]);
    assert_eq!(thresholds_or_default(None, 2).unwrap(), vec![2]);
    assert_eq!(thresholds_or_default(Some("4,4"), 1).unwrap(), vec![4, 4]);
}

#[test]
fn coercion_decodes_big_endian_and_extends_sign() {
    let v = Int64::from_sql(&ColumnType::Char, &vec![0xFF]).unwrap();
    assert_eq!(v.to_i64(), -1);
    let v = Int64::from_sql(&ColumnType::Int2, &vec![0xFF, 0xFE]).unwrap();
    assert_eq!(v.to_i64(), -2);
    let v = Int64::from_sql(&ColumnType::Int4, &vec![0x80, 0x00, 0x00, 0x00]).unwrap();
    assert_eq!(v.to_i64(), -2147483648);
    let v = Int64::from_sql(&ColumnType::Int4, &vec![0x00, 0x00, 0x01, 0x02]).unwrap();
    assert_eq!(v.to_i64(), 258);
    let v = Int64::from_sql(
        &ColumnType::Int8,
        &vec![0x80, 0x00, 0x00, 0x00, 0x00, 0x00, 0x00, 0x00],
    )
    .unwrap();
    assert_eq!(v.to_i64(), i64::MIN);
    let v = Int64::from_sql(
        &ColumnType::Int8,
        &vec![0x7F, 0xFF, 0xFF, 0xFF, 0xFF, 0xFF, 0xFF, 0xFF],
    )
    .unwrap();
    assert_eq!(v.to_i64(), i64::MAX);
}

#[test]
fn oid_is_zero_extended() {
    let v = Int64::from_sql(&ColumnType::Oid, &vec![0xFF, 0xFF, 0xFF, 0xFF]).unwrap();
    assert_eq!(v.to_i64(), 4294967295);
}

#[test]
fn coercion_rejects_unrecognized_types_and_bad_widths() {
    let e = Int64::from_sql(&ColumnType::Other, &vec![0, 0, 0, 1]).unwrap_err();
    assert_eq!(e, CheckError::UnsupportedColumnType);
    let e = Int64::from_sql(&ColumnType::Int2, &vec![1]).unwrap_err();
    assert_eq!(e, CheckError::MalformedColumnValue);
    assert!(Int64::accepts(&ColumnType::Oid));
    assert!(!Int64::accepts(&ColumnType::Other));
}

#[test]
fn exit_codes_follow_the_convention() {
    assert_eq!(StatusType::OK.exit_code(), 0);
    assert_eq!(StatusType::WARNING.exit_code(), 1);
    assert_eq!(StatusType::CRITICAL.exit_code(), 2);
    assert_eq!(StatusType::UNKNOWN.exit_code(), 3);
}

#[test]
fn report_renders_severity_and_description() {
    let st = Status::unknown(String::from("query failed"));
    assert_eq!(st.render(), "UNKNOWN|query failed");
    let st = Status { t: StatusType::OK, description: String::from("Result:(0)") };
    assert_eq!(st.render(), "OK|Result:(0)");
}
