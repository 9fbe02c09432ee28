use ln_build::catalog::{max_supported, parse_gpu_code_line, parse_supported_set, validate_arch};
use ln_build::errors::{ConfigIssue, Error};

#[test]
fn mixed_listing_lines_yield_exactly_the_sm_codes() {
    let out = "sm_80\nsm_90\ncompute_80\n\nbogus\n";
    assert_eq!(parse_supported_set(out), vec![80, 90]);
}

#[test]
fn sm_line_parses_to_its_code() {
    assert_eq!(parse_gpu_code_line("sm_80"), Some(80));
}

#[test]
fn compute_line_is_skipped() {
    assert_eq!(parse_gpu_code_line("compute_80"), None);
}

#[test]
fn blank_line_is_skipped() {
    assert_eq!(parse_gpu_code_line(""), None);
}

#[test]
fn bare_marker_without_code_is_skipped() {
    assert_eq!(parse_gpu_code_line("sm"), None);
}

#[test]
fn marker_in_wrong_position_still_needs_a_numeric_second_piece() {
    assert_eq!(parse_gpu_code_line("80_sm"), None);
    assert_eq!(parse_gpu_code_line("x_90_sm"), Some(90));
}

#[test]
fn member_at_or_below_maximum_is_accepted() {
    assert!(validate_arch(86, &vec![80, 86, 75]).is_ok());
    assert!(validate_arch(75, &vec![80, 86, 75]).is_ok());
}

#[test]
fn empty_supported_set_is_a_config_error() {
    assert!(matches!(
        validate_arch(80, &vec![]),
        Err(Error::Config(ConfigIssue::EmptySupportedSet))
    ));
}

#[test]
fn non_member_below_maximum_is_reported_as_unsupported() {
    assert!(matches!(
        validate_arch(85, &vec![80, 86]),
        Err(Error::Config(ConfigIssue::NotSupported { requested: 85 }))
    ));
}

#[test]
fn value_above_maximum_is_reported_apart_from_non_membership() {
    assert!(matches!(
        validate_arch(90, &vec![80, 86]),
        Err(Error::Config(ConfigIssue::ExceedsMax { requested: 90, max: 86 }))
    ));
}

#[test]
fn maximum_of_the_supported_set() {
    assert_eq!(max_supported(&vec![80, 90, 86]), Some(90));
    assert_eq!(max_supported(&vec![75]), Some(75));
    assert_eq!(max_supported(&vec![]), None);
}
