use qrlan::update::{is_newer_version, parse_u32_digits, parse_version};

#[test]
fn plain_version_parses() {
    assert_eq!(parse_version("1.2.3"), Some((1, 2, 3)));
}

#[test]
fn v_prefix_is_accepted() {
    assert_eq!(parse_version("v10.0.1"), Some((10, 0, 1)));
}

#[test]
fn version_is_found_inside_text() {
    assert_eq!(parse_version("release v2.3.4-beta"), Some((2, 3, 4)));
}

#[test]
fn non_versions_yield_nothing() {
    assert_eq!(parse_version("abc"), None);
    assert_eq!(parse_version("1.2"), None);
    assert_eq!(parse_version(""), None);
}

#[test]
fn oversized_component_yields_nothing() {
    assert_eq!(parse_version("99999999999.0.0"), None);
}

#[test]
fn digit_parsing_is_exact() {
    assert_eq!(parse_u32_digits("0"), Some(0));
    assert_eq!(parse_u32_digits("4294967295"), Some(u32::MAX));
    assert_eq!(parse_u32_digits("4294967296"), None);
    assert_eq!(parse_u32_digits(""), None);
    assert_eq!(parse_u32_digits("12a"), None);
    assert_eq!(parse_u32_digits("+12"), None);
}

#[test]
fn newer_major_or_minor_prompts_update() {
    assert!(is_newer_version((1, 2, 3), (2, 0, 0)));
    assert!(is_newer_version((1, 2, 3), (1, 3, 0)));
}

#[test]
fn patch_level_does_not_prompt_update() {
    assert!(!is_newer_version((1, 2, 3), (1, 2, 9)));
    assert!(!is_newer_version((1, 2, 3), (1, 2, 3)));
    assert!(!is_newer_version((2, 0, 0), (1, 9, 9)));
}
