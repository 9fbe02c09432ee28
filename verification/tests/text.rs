use ln_build::text::{parse_usize, parse_usize_skipping, render_usize, split_lines, split_str};

#[test]
fn parse_accepts_plain_decimals() {
    assert_eq!(parse_usize("0"), Some(0));
    assert_eq!(parse_usize("86"), Some(86));
    assert_eq!(parse_usize("086"), Some(86));
}

#[test]
fn parse_rejects_empty_and_non_digits() {
    assert_eq!(parse_usize(""), None);
    assert_eq!(parse_usize("8.6"), None);
    assert_eq!(parse_usize("-1"), None);
    assert_eq!(parse_usize("86a"), None);
}

#[test]
fn parse_rejects_values_past_the_machine_limit() {
    assert_eq!(parse_usize("18446744073709551615"), Some(usize::MAX));
    assert_eq!(parse_usize("18446744073709551616"), None);
}

#[test]
fn parse_skipping_strips_every_separator() {
    assert_eq!(parse_usize_skipping("8.6", '.'), Some(86));
    assert_eq!(parse_usize_skipping("8.6.1", '.'), Some(861));
    assert_eq!(parse_usize_skipping("...", '.'), None);
    assert_eq!(parse_usize_skipping("8.x", '.'), None);
}

#[test]
fn render_writes_decimal_without_leading_zeros() {
    assert_eq!(render_usize(0), "0");
    assert_eq!(render_usize(86), "86");
    assert_eq!(render_usize(120), "120");
}

#[test]
fn split_keeps_empty_pieces() {
    assert_eq!(split_str("a__b", '_'), vec!["a", "", "b"]);
    assert_eq!(split_str("", '_'), vec![""]);
    assert_eq!(split_str("sm_80", '_'), vec!["sm", "80"]);
}

#[test]
fn lines_drop_one_trailing_newline_and_carriage_returns() {
    assert_eq!(split_lines("a\nb\n"), vec!["a", "b"]);
    assert_eq!(split_lines("a\nb"), vec!["a", "b"]);
    assert_eq!(split_lines("a\r\nb\r\n"), vec!["a", "b"]);
    assert_eq!(split_lines("a\n\n"), vec!["a", ""]);
    assert_eq!(split_lines(""), Vec::<&str>::new());
}
