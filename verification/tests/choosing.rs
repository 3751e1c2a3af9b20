use vm_rs::chooser::{choice_input, format_vm_label, parse_choice};
use vm_rs::errors::SyncError;

#[test]
fn input_numbers_labels_with_nul_separators() {
    let labels = vec!["alpha".to_string(), "beta".to_string()];
    assert_eq!(choice_input(&labels), "0 alpha\u{0}1 beta");
}

#[test]
fn input_empty_list_is_empty() {
    assert_eq!(choice_input(&vec![]), "");
}

#[test]
fn selecting_second_returns_one() {
    assert_eq!(parse_choice("1 beta\u{0}", 2), Ok(1));
}

#[test]
fn empty_output_is_no_selection() {
    assert_eq!(parse_choice("", 2), Err(SyncError::NoSelection));
}

#[test]
fn non_numeric_field_is_malformed() {
    match parse_choice("x beta\u{0}", 2) {
        Err(SyncError::MalformedChoice { field }) => assert_eq!(field, "x"),
        other => panic!("expected MalformedChoice, got {:?}", other),
    }
}

#[test]
fn out_of_range_index_is_malformed() {
    match parse_choice("5 zeta\u{0}", 2) {
        Err(SyncError::MalformedChoice { field }) => assert_eq!(field, "5"),
        other => panic!("expected MalformedChoice, got {:?}", other),
    }
}

#[test]
fn huge_index_is_malformed() {
    let r = parse_choice("99999999999999999999999999 x", 7);
    assert!(matches!(r, Err(SyncError::MalformedChoice { .. })));
}

#[test]
fn many_labels_round_trip() {
    let labels: Vec<String> = (0..12).map(|i| format!("label{}", i)).collect();
    let input = choice_input(&labels);
    assert!(input.contains("\u{0}11 label11"));
    assert_eq!(parse_choice("11 label11\u{0}", 12), Ok(11));
}

#[test]
fn label_format_exact() {
    assert_eq!(format_vm_label("web", "i-0123", "running"), "web i-0123 [running]");
}
