use gem5conv::captures::{shift_value, split_offset};
use gem5conv::number::{format_int, parse_isize, parse_usize};
use gem5conv::text::{
    find_sub, split_all, split_lines, split_once, split_once_sub, starts_with, trim, trim_end,
    trim_start,
};

fn cs(s: &str) -> Vec<char> {
    s.chars().collect()
}

#[test]
fn parse_usize_reads_digits_and_a_plus_sign() {
    assert_eq!(parse_usize(&cs("0")), Some(0));
    assert_eq!(parse_usize(&cs("1500")), Some(1500));
    assert_eq!(parse_usize(&cs("+42")), Some(42));
    assert_eq!(parse_usize(&cs("007")), Some(7));
}

#[test]
fn parse_usize_rejects_what_is_no_number() {
    assert_eq!(parse_usize(&cs("")), None);
    assert_eq!(parse_usize(&cs("+")), None);
    assert_eq!(parse_usize(&cs("-1")), None);
    assert_eq!(parse_usize(&cs("12a")), None);
    assert_eq!(parse_usize(&cs(" 12")), None);
    assert_eq!(parse_usize(&cs("12 ")), None);
}

#[test]
fn parse_usize_stops_at_the_machine_word() {
    let max = usize::MAX.to_string();
    assert_eq!(parse_usize(&cs(&max)), Some(usize::MAX));
    assert_eq!(parse_usize(&cs("18446744073709551616")), None);
    assert_eq!(parse_usize(&cs("99999999999999999999999999")), None);
}

#[test]
fn parse_isize_reads_both_signs() {
    assert_eq!(parse_isize(&cs("-12")), Some(-12));
    assert_eq!(parse_isize(&cs("+12")), Some(12));
    assert_eq!(parse_isize(&cs("12")), Some(12));
    assert_eq!(parse_isize(&cs("-9223372036854775808")), Some(-9223372036854775808));
    assert_eq!(parse_isize(&cs("9223372036854775807")), Some(9223372036854775807));
    assert_eq!(parse_isize(&cs("9223372036854775808")), None);
    assert_eq!(parse_isize(&cs("-")), None);
    assert_eq!(parse_isize(&cs("0x10")), None);
}

#[test]
fn format_int_writes_decimal() {
    assert_eq!(format_int(0), cs("0"));
    assert_eq!(format_int(14), cs("14"));
    assert_eq!(format_int(-305), cs("-305"));
    assert_eq!(format_int(1000000), cs("1000000"));
}

#[test]
fn split_once_cuts_at_the_first_separator() {
    assert_eq!(split_once(&cs("a:b:c"), ':'), Some((cs("a"), cs("b:c"))));
    assert_eq!(split_once(&cs(":x"), ':'), Some((cs(""), cs("x"))));
    assert_eq!(split_once(&cs("abc"), ':'), None);
}

#[test]
fn split_all_yields_one_piece_more_than_separators() {
    assert_eq!(split_all(&cs("a:b::c"), ':'), vec![cs("a"), cs("b"), cs(""), cs("c")]);
    assert_eq!(split_all(&cs(""), ':'), vec![cs("")]);
    assert_eq!(split_lines(&cs("one\ntwo\n")), vec![cs("one"), cs("two"), cs("")]);
}

#[test]
fn find_sub_finds_the_first_occurrence() {
    assert_eq!(find_sub(&cs("abcabc"), &cs("bc")), Some(1));
    assert_eq!(find_sub(&cs("abcabc"), &cs("cb")), None);
    assert_eq!(find_sub(&cs("ab"), &cs("abc")), None);
    assert_eq!(find_sub(&cs("ab"), &cs("")), Some(0));
    assert_eq!(
        split_once_sub(&cs("xPLUSyPLUSz"), &cs("PLUS")),
        Some((cs("x"), cs("yPLUSz")))
    );
}

#[test]
fn starts_with_is_a_prefix_test() {
    assert!(starts_with(&cs("system.cpu.rename"), &cs("system.cpu")));
    assert!(starts_with(&cs("abc"), &cs("")));
    assert!(!starts_with(&cs("sys"), &cs("system")));
    assert!(!starts_with(&cs("xsystem"), &cs("system")));
}

#[test]
fn trimming_removes_white_space_at_the_ends_only() {
    assert_eq!(trim_start(&cs("  \t a b ")), cs("a b "));
    assert_eq!(trim_end(&cs(" a b \r\n")), cs(" a b"));
    assert_eq!(trim(&cs("\u{a0} a b \u{3000}")), cs("a b"));
    assert_eq!(trim(&cs("   ")), cs(""));
}

#[test]
fn offset_capture_adds_to_numbers_only() {
    let (name, offset) = split_offset(&cs("valuePLUS4"));
    assert_eq!(name, cs("value"));
    assert_eq!(offset, 4);
    assert_eq!(shift_value(&cs("10"), offset), cs("14"));
    assert_eq!(shift_value(&cs("abc"), offset), cs("abc"));
}

#[test]
fn offset_capture_subtracts_after_minus() {
    let (name, offset) = split_offset(&cs("idxMINUS1"));
    assert_eq!(name, cs("idx"));
    assert_eq!(offset, -1);
    assert_eq!(shift_value(&cs("0"), offset), cs("-1"));
    assert_eq!(shift_value(&cs("-7"), offset), cs("-8"));
}

#[test]
fn a_name_without_offset_stays_whole() {
    assert_eq!(split_offset(&cs("plain")), (cs("plain"), 0));
    assert_eq!(split_offset(&cs("aPLUSx")), (cs("a"), 0));
    assert_eq!(shift_value(&cs("+5"), 0), cs("5"));
}
