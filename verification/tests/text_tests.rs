use rdp_spray::text::load_lines;
use rdp_spray::text::trim_str;
use rdp_spray::text::usize_to_dec;

#[test]
fn splits_on_newlines_and_trims() {
    assert_eq!(load_lines("alpha\nbeta"), vec!["alpha", "beta"]);
    assert_eq!(load_lines(" alpha \r\n\tbeta"), vec!["alpha", "beta"]);
}

#[test]
fn keeps_empty_trailing_line_after_final_newline() {
    assert_eq!(load_lines("alpha\nbeta\n"), vec!["alpha", "beta", ""]);
}

#[test]
fn empty_text_yields_one_empty_line() {
    assert_eq!(load_lines(""), vec![""]);
}

#[test]
fn keeps_empty_interior_lines() {
    assert_eq!(load_lines("a\n\nb"), vec!["a", "", "b"]);
}

#[test]
fn trims_surrounding_whitespace_only() {
    assert_eq!(trim_str("  pass word\t"), "pass word");
    assert_eq!(trim_str("plain"), "plain");
    assert_eq!(trim_str("   "), "");
    assert_eq!(trim_str(""), "");
    assert_eq!(trim_str("\u{a0}x\u{3000}"), "x");
}

#[test]
fn renders_indices_in_decimal() {
    assert_eq!(usize_to_dec(0), "0");
    assert_eq!(usize_to_dec(7), "7");
    assert_eq!(usize_to_dec(42), "42");
    assert_eq!(usize_to_dec(1000), "1000");
}
