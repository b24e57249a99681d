use resize_uploader::input::effective_dimension;
use resize_uploader::input::effective_name;
use resize_uploader::input::effective_parameters;
use resize_uploader::input::parse_u32;
use resize_uploader::input::trim;

#[test]
fn empty_input_takes_all_defaults() {
    let (name, width, height) = effective_parameters("vacation", "", "", "");
    assert_eq!(name, "vacation");
    assert_eq!(width, 640);
    assert_eq!(height, 480);
}

#[test]
fn newline_only_input_takes_all_defaults() {
    let (name, width, height) = effective_parameters("vacation", "\n", " \r\n", "\t\n");
    assert_eq!(name, "vacation");
    assert_eq!(width, 640);
    assert_eq!(height, 480);
}

#[test]
fn supplied_values_are_kept() {
    let (name, width, height) = effective_parameters("vacation", "trip\n", "800\n", "600\n");
    assert_eq!(name, "trip");
    assert_eq!(width, 800);
    assert_eq!(height, 600);
}

#[test]
fn non_numeric_dimensions_fall_back_to_defaults() {
    assert_eq!(effective_dimension("abc", 640), 640);
    assert_eq!(effective_dimension("12px", 640), 640);
    assert_eq!(effective_dimension("-5", 480), 480);
    assert_eq!(effective_dimension("3.5", 480), 480);
    assert_eq!(effective_dimension("", 640), 640);
}

#[test]
fn numeric_dimensions_are_parsed_after_trimming() {
    assert_eq!(effective_dimension(" 800 \n", 640), 800);
    assert_eq!(effective_dimension("+800", 640), 800);
    assert_eq!(effective_dimension("1", 640), 1);
}

#[test]
fn zero_dimension_falls_back_to_default() {
    assert_eq!(effective_dimension("0", 640), 640);
    assert_eq!(effective_dimension("+0", 480), 480);
    assert_eq!(effective_dimension("00", 640), 640);
    let (_, width, height) = effective_parameters("pic", "", "0\n", "0");
    assert_eq!((width, height), (640, 480));
}

#[test]
fn parse_u32_accepts_exactly_fitting_numerals() {
    assert_eq!(parse_u32("0"), Some(0));
    assert_eq!(parse_u32("640"), Some(640));
    assert_eq!(parse_u32("+640"), Some(640));
    assert_eq!(parse_u32("4294967295"), Some(u32::MAX));
    assert_eq!(parse_u32("4294967296"), None);
    assert_eq!(parse_u32("99999999999999999999"), None);
    assert_eq!(parse_u32(""), None);
    assert_eq!(parse_u32("+"), None);
    assert_eq!(parse_u32(" 1"), None);
    assert_eq!(parse_u32("1 "), None);
    assert_eq!(parse_u32("--1"), None);
}

#[test]
fn oversized_numeric_input_falls_back_to_default() {
    assert_eq!(effective_dimension("99999999999", 640), 640);
}

#[test]
fn name_keeps_inner_spaces_but_loses_outer_ones() {
    assert_eq!(effective_name("  my trip  ", "vacation"), "my trip");
    assert_eq!(effective_name("   ", "vacation"), "vacation");
}

#[test]
fn trim_removes_unicode_whitespace() {
    assert_eq!(trim("  abc\t\r\n"), "abc");
    assert_eq!(trim("\u{3000}a b\u{00A0}"), "a b");
    assert_eq!(trim(""), "");
    assert_eq!(trim(" \u{2028} "), "");
}
