use adsync::{format_group_key, parse_u8, split_group_key};

#[test]
fn key_is_platform_colon_category() {
    assert_eq!(format_group_key(2, "advertiser"), "2:advertiser");
    assert_eq!(format_group_key(40, ""), "40:");
    assert_eq!(format_group_key(100, "x"), "100:x");
}

#[test]
fn parse_u8_matches_std() {
    for s in ["0", "7", "42", "255", "256", "+3", "+", "", "-1", "1a", "007", "99999999999", "2 "] {
        assert_eq!(parse_u8(s), s.parse::<u8>().ok(), "{s}");
    }
}

#[test]
fn split_uses_the_last_colon() {
    assert_eq!(split_group_key("4:project"), Some((4, "project".to_string())));
    // A category with a colon leaves a platform part that is no byte.
    assert_eq!(split_group_key("2:a:b"), None);
    assert_eq!(split_group_key("2"), None);
    assert_eq!(split_group_key("300:balance"), None);
    assert_eq!(split_group_key(":balance"), None);
    assert_eq!(split_group_key("4:"), Some((4, String::new())));
}
