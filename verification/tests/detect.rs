use ln_build::detect::{detect_arch, parse_driver_query, parse_override};
use ln_build::errors::{ConfigIssue, Error, ParseIssue};

#[test]
fn override_resolves_without_driver_query() {
    let override_val = String::from("86");
    assert_eq!(detect_arch(Some(&override_val), None).unwrap(), 86);
}

#[test]
fn override_wins_over_any_driver_output() {
    let override_val = String::from("86");
    let contradicting = String::from("compute_cap\n9.0\n");
    let garbage = String::from("no such tool");
    assert_eq!(detect_arch(Some(&override_val), Some(&contradicting)).unwrap(), 86);
    assert_eq!(detect_arch(Some(&override_val), Some(&garbage)).unwrap(), 86);
}

#[test]
fn non_numeric_override_is_a_config_error() {
    let override_val = String::from("8a");
    match detect_arch(Some(&override_val), None) {
        Err(Error::Config(ConfigIssue::BadOverride { raw })) => assert_eq!(raw, "8a"),
        other => panic!("expected a bad-override error, got {:?}", other),
    }
}

#[test]
fn empty_override_is_a_config_error() {
    match parse_override("") {
        Err(Error::Config(ConfigIssue::BadOverride { raw })) => assert_eq!(raw, ""),
        other => panic!("expected a bad-override error, got {:?}", other),
    }
}

#[test]
fn missing_driver_tool_is_a_toolchain_error() {
    match detect_arch(None, None) {
        Err(Error::Toolchain { tool }) => assert_eq!(tool, "nvidia-smi"),
        other => panic!("expected a toolchain error, got {:?}", other),
    }
}

#[test]
fn driver_output_parses_with_dot_stripped() {
    assert_eq!(parse_driver_query("compute_cap\n8.6\n").unwrap(), 86);
}

#[test]
fn driver_output_parses_without_trailing_newline() {
    assert_eq!(parse_driver_query("compute_cap\n9.0").unwrap(), 90);
}

#[test]
fn driver_output_parses_with_carriage_returns() {
    assert_eq!(parse_driver_query("compute_cap\r\n8.6\r\n").unwrap(), 86);
}

#[test]
fn driver_output_without_header_is_a_parse_error() {
    assert!(matches!(
        parse_driver_query(""),
        Err(Error::Parse(ParseIssue::MissingHeaderLine))
    ));
}

#[test]
fn driver_output_with_wrong_header_is_a_parse_error() {
    assert!(matches!(
        parse_driver_query("memory_total\n8.6\n"),
        Err(Error::Parse(ParseIssue::HeaderMismatch))
    ));
}

#[test]
fn driver_output_without_data_line_is_a_parse_error() {
    assert!(matches!(
        parse_driver_query("compute_cap\n"),
        Err(Error::Parse(ParseIssue::MissingDataLine))
    ));
}

#[test]
fn malformed_data_line_is_a_parse_error_naming_it() {
    match parse_driver_query("compute_cap\nx.y\n") {
        Err(Error::Parse(ParseIssue::MalformedData { raw })) => assert_eq!(raw, "x.y"),
        other => panic!("expected a malformed-data error, got {:?}", other),
    }
}

#[test]
fn detect_arch_reads_driver_output_without_override() {
    let out = String::from("compute_cap\n8.0\n");
    assert_eq!(detect_arch(None, Some(&out)).unwrap(), 80);
}
