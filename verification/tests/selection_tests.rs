use mdex_dl::selection::{parse_selection, sorted_dedup, to_range, trim_commas, trim_spaces};

#[test]
fn single_number() {
    assert_eq!(parse_selection("2").unwrap(), vec![2]);
}

#[test]
fn mixed_numbers_and_ranges() {
    assert_eq!(parse_selection("1, 3, 5-8, 11-14").unwrap(), vec![1, 3, 5, 6, 7, 8, 11, 12, 13, 14]);
}

#[test]
fn ranges_include_both_ends() {
    assert_eq!(parse_selection("5-8").unwrap(), vec![5, 6, 7, 8]);
}

#[test]
fn result_is_sorted_and_deduplicated() {
    assert_eq!(parse_selection("5,1,3,1,2-4").unwrap(), vec![1, 2, 3, 4, 5]);
}

#[test]
fn trailing_commas_and_whitespace_are_trimmed() {
    assert_eq!(parse_selection(",1,2,").unwrap(), vec![1, 2]);
    assert_eq!(parse_selection("  7  ").unwrap(), vec![7]);
}

#[test]
fn empty_input_is_rejected() {
    let e = parse_selection("").unwrap_err();
    assert_eq!(e.message().as_str(), "no input made");
    let e = parse_selection("   ").unwrap_err();
    assert_eq!(e.message().as_str(), "no input made");
}

#[test]
fn empty_token_between_commas_is_rejected() {
    let e = parse_selection("1,,2").unwrap_err();
    assert_eq!(e.message().as_str(), "no selection found between comma");
}

#[test]
fn letters_are_rejected() {
    let e = parse_selection("1,a").unwrap_err();
    assert_eq!(e.message().as_str(), "unexpected token");
    // the span points at the 'a' in the re-joined display form
    assert_eq!(e.source_text().as_str(), "1,a");
    assert_eq!(e.span(), (2, 0));
}

#[test]
fn inner_whitespace_is_rejected() {
    let e = parse_selection("1 2").unwrap_err();
    assert_eq!(e.message().as_str(), "unexpected whitespace");
}

#[test]
fn descending_range_is_rejected() {
    let e = parse_selection("6-2").unwrap_err();
    assert_eq!(e.message().as_str(), "start of range greater than end");
}

#[test]
fn dangling_dash_is_rejected() {
    let e = parse_selection("1-").unwrap_err();
    assert_eq!(e.message().as_str(), "missing range operands");
    let e = parse_selection("1--2").unwrap_err();
    assert_eq!(e.message().as_str(), "missing range operands");
}

#[test]
fn three_operand_range_is_rejected() {
    let e = parse_selection("1-2-3").unwrap_err();
    assert_eq!(e.message().as_str(), "invalid range operands");
}

#[test]
fn oversized_numbers_are_rejected() {
    let e = parse_selection("99999999999").unwrap_err();
    assert_eq!(e.message().as_str(), "i32 overflow");
    assert_eq!(e.span(), (0, 11));
    let e = parse_selection("1-99999999999").unwrap_err();
    assert_eq!(e.message().as_str(), "i32 overflow");
    assert_eq!(e.span(), (0, 13));
}

#[test]
fn later_token_diagnostics_carry_their_position() {
    let e = parse_selection("1, 2, 6-2").unwrap_err();
    assert_eq!(e.message().as_str(), "start of range greater than end");
    assert_eq!(e.source_text().as_str(), "1,2,6-2");
    assert_eq!(e.span(), (4, 3));
    let e = parse_selection("1,,2").unwrap_err();
    assert_eq!(e.message().as_str(), "no selection found between comma");
    assert_eq!(e.span(), (2, 0));
}

#[test]
fn to_range_is_inclusive_and_ordered() {
    assert_eq!(to_range(2, 5).unwrap(), vec![2, 3, 4, 5]);
    assert_eq!(to_range(3, 3).unwrap(), vec![3]);
    assert!(to_range(5, 2).is_err());
}

#[test]
fn sorted_dedup_sorts_and_removes_duplicates() {
    assert_eq!(sorted_dedup(&vec![5, 1, 3, 1, 5]), vec![1, 3, 5]);
    assert_eq!(sorted_dedup(&vec![]), Vec::<i32>::new());
}

#[test]
fn trim_helpers() {
    assert_eq!(trim_spaces("  a b  "), "a b");
    assert_eq!(trim_commas(",,1,2,"), "1,2");
}
