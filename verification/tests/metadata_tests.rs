use blackd_client::metadata::{header_value_ok, headers_from_cli_options, FormatConfiguration};
use reqwest::header::HeaderMap;

fn base_config() -> FormatConfiguration {
    FormatConfiguration {
        line_length: 88,
        target_version: String::new(),
        skip_string_normalization: false,
        skip_magic_trailing_comma: false,
        fast: false,
        safe: false,
        diff: false,
    }
}

fn value_of<'a>(m: &'a HeaderMap, name: &str) -> Option<&'a str> {
    m.get(name).map(|v| v.to_str().unwrap())
}

#[test]
fn default_config_sends_exactly_the_mandatory_headers() {
    let m = headers_from_cli_options(&base_config());
    assert_eq!(value_of(&m, "x-protocol-version"), Some("1"));
    assert_eq!(value_of(&m, "x-line-length"), Some("88"));
    assert_eq!(value_of(&m, "x-fast-or-safe"), Some("safe"));
    assert_eq!(value_of(&m, "x-skip-string-normalization"), None);
    assert_eq!(value_of(&m, "x-skip-magic-trailing-comma"), None);
    assert_eq!(value_of(&m, "x-python-variant"), None);
    assert_eq!(value_of(&m, "x-diff"), None);
    assert_eq!(m.len(), 3);
}

#[test]
fn line_length_is_sent_as_decimal_text() {
    let mut c = base_config();
    c.line_length = 1;
    assert_eq!(value_of(&headers_from_cli_options(&c), "x-line-length"), Some("1"));
    c.line_length = 255;
    assert_eq!(value_of(&headers_from_cli_options(&c), "x-line-length"), Some("255"));
}

#[test]
fn skip_string_normalization_marker_tracks_its_flag() {
    let mut c = base_config();
    c.skip_string_normalization = true;
    let m = headers_from_cli_options(&c);
    assert_eq!(value_of(&m, "x-skip-string-normalization"), Some("true"));
}

#[test]
fn skip_magic_trailing_comma_marker_tracks_its_flag() {
    let mut c = base_config();
    c.skip_magic_trailing_comma = true;
    let m = headers_from_cli_options(&c);
    assert_eq!(value_of(&m, "x-skip-magic-trailing-comma"), Some("true"));
}

#[test]
fn fast_is_sent_only_when_safe_was_not_asked_for() {
    let mut c = base_config();
    c.fast = true;
    assert_eq!(value_of(&headers_from_cli_options(&c), "x-fast-or-safe"), Some("fast"));
    c.safe = true;
    assert_eq!(value_of(&headers_from_cli_options(&c), "x-fast-or-safe"), Some("safe"));
}

#[test]
fn variant_marker_present_exactly_when_versions_were_given() {
    let mut c = base_config();
    c.target_version = "py36,py39".to_string();
    let m = headers_from_cli_options(&c);
    assert_eq!(value_of(&m, "x-python-variant"), Some("py36,py39"));
    c.target_version = String::new();
    let m = headers_from_cli_options(&c);
    assert_eq!(value_of(&m, "x-python-variant"), None);
}

#[test]
fn diff_marker_tracks_its_flag() {
    let mut c = base_config();
    c.diff = true;
    let m = headers_from_cli_options(&c);
    assert_eq!(value_of(&m, "x-diff"), Some("true"));
}

#[test]
fn all_flags_together() {
    let c = FormatConfiguration {
        line_length: 120,
        target_version: "py38".to_string(),
        skip_string_normalization: true,
        skip_magic_trailing_comma: true,
        fast: true,
        safe: false,
        diff: true,
    };
    let m = headers_from_cli_options(&c);
    assert_eq!(value_of(&m, "x-protocol-version"), Some("1"));
    assert_eq!(value_of(&m, "x-line-length"), Some("120"));
    assert_eq!(value_of(&m, "x-skip-string-normalization"), Some("true"));
    assert_eq!(value_of(&m, "x-skip-magic-trailing-comma"), Some("true"));
    assert_eq!(value_of(&m, "x-fast-or-safe"), Some("fast"));
    assert_eq!(value_of(&m, "x-python-variant"), Some("py38"));
    assert_eq!(value_of(&m, "x-diff"), Some("true"));
    assert_eq!(m.len(), 7);
}

#[test]
fn translation_is_deterministic() {
    let mut c = base_config();
    c.target_version = "py36".to_string();
    c.diff = true;
    let m1 = headers_from_cli_options(&c);
    let m2 = headers_from_cli_options(&c);
    assert_eq!(m1, m2);
}

#[test]
fn header_value_check_accepts_wire_tags_and_refuses_control_chars() {
    assert!(header_value_ok("py36,py39"));
    assert!(header_value_ok(""));
    assert!(!header_value_ok("a\nb"));
    assert!(!header_value_ok("\u{7f}"));
}
