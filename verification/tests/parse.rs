use mtg::parse::{
    find_resolution, leading_token, line_is_connected, line_is_primary, str_has_substring,
    str_starts_with,
};

#[test]
fn leading_token_stops_at_first_space() {
    assert_eq!(leading_token("HDMI-1 connected primary"), "HDMI-1");
    assert_eq!(leading_token("solo"), "solo");
    assert_eq!(leading_token(""), "");
    assert_eq!(leading_token(" leading"), "");
}

#[test]
fn substring_search() {
    assert!(str_has_substring("abcd", "bc"));
    assert!(str_has_substring("abcd", "abcd"));
    assert!(str_has_substring("abcd", ""));
    assert!(!str_has_substring("abcd", "ce"));
    assert!(!str_has_substring("ab", "abc"));
}

#[test]
fn prefix_check() {
    assert!(str_starts_with("abcd", "ab"));
    assert!(str_starts_with("abcd", ""));
    assert!(!str_starts_with("abcd", "bc"));
    assert!(!str_starts_with("a", "ab"));
}

#[test]
fn connected_marker_needs_both_spaces() {
    assert!(line_is_connected("VGA-1 connected 1024x768+0+0"));
    assert!(!line_is_connected("VGA-1 disconnected (normal left inverted)"));
    assert!(!line_is_connected("DP-2 connected"));
}

#[test]
fn primary_marker_is_a_plain_substring() {
    assert!(line_is_primary("HDMI-1 connected primary 1920x1080+0+0"));
    assert!(!line_is_primary("HDMI-1 connected 1920x1080+0+0"));
}

#[test]
fn resolution_needs_boundaries_on_both_sides() {
    assert_eq!(find_resolution(" 1920x1080 ").as_deref(), Some("1920x1080"));
    assert_eq!(find_resolution("1920x1080 "), None);
    assert_eq!(find_resolution(" 1920x1080"), None);
    assert_eq!(find_resolution(" 1920x "), None);
    assert_eq!(find_resolution(" x1080 "), None);
    assert_eq!(find_resolution(""), None);
}

#[test]
fn resolution_is_leftmost() {
    assert_eq!(find_resolution(" 12x34 5678x910 ").as_deref(), Some("12x34"));
}

#[test]
fn resolution_with_multibyte_neighbours() {
    assert_eq!(find_resolution("é1920x1080é").as_deref(), Some("1920x1080"));
}
