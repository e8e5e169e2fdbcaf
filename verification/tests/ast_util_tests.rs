//! Tests of the literal-handling helpers the grammar's actions use.

use hot_eval::ast_util::{
    filter_str_chars, make_bad_literal_error, slice_after_begin, HotEvalParserError,
    UnevaluatedNumberLiteral,
};

#[test]
fn slice_after_begin_drops_prefix() {
    assert_eq!(slice_after_begin("0x1f2e", 2), "1f2e");
    assert_eq!(slice_after_begin("abc", 0), "abc");
    assert_eq!(slice_after_begin("abc", 3), "");
}

#[test]
fn slice_after_begin_counts_bytes() {
    // a 2-character, 3-byte string: dropping 1 byte leaves the 2-byte char
    let s = "h\u{00e9}";
    assert_eq!(s.len(), 3);
    assert_eq!(slice_after_begin(s, 1), "\u{00e9}");
    assert_eq!(slice_after_begin(s, 3), "");
}

#[test]
fn filter_str_chars_removes_every_occurrence() {
    assert_eq!(filter_str_chars("1_000_000", '_'), "1000000");
    assert_eq!(filter_str_chars("no separators", 'x'), "no separators");
    assert_eq!(filter_str_chars("___", '_'), "");
    assert_eq!(filter_str_chars("", '_'), "");
}

#[test]
fn bad_literal_error_carries_type_name() {
    let e = make_bad_literal_error("u32");
    assert_eq!(e, HotEvalParserError::BadLiteral { type_str: "u32" });
}

#[test]
fn unevaluated_literal_holds_text_and_radix() {
    let lit = UnevaluatedNumberLiteral { string: "1f2e".to_string(), radix: 16 };
    assert_eq!(lit.string, "1f2e");
    assert_eq!(lit.radix, 16);
}
