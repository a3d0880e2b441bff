use oauth_client_credentials::text::{
    decimal_text, first_segment, is_blank, join, same_text, starts_with, text_precedes,
};

#[test]
fn blank_is_what_trims_to_nothing() {
    for code in 0..=0x10ffff_u32 {
        if let Some(c) = char::from_u32(code) {
            let text = c.to_string();
            assert_eq!(is_blank(&text), text.trim().is_empty());
        }
    }
    assert!(is_blank(""));
    assert!(!is_blank(" x "));
}

#[test]
fn order_is_that_of_strings() {
    let names = ["", "a", "ab", "b", "B", "\u{e9}", "\u{ffff}", "\u{10000}", "a\u{0}"];
    for a in names {
        for b in names {
            assert_eq!(text_precedes(a, b), a < b);
            assert_eq!(same_text(a, b), a == b);
        }
    }
}

#[test]
fn prefixes_are_found() {
    assert!(starts_with("http://x", "http://"));
    assert!(!starts_with("https://x", "http://"));
    assert!(!starts_with("http:/", "http://"));
    assert!(starts_with("x", ""));
}

#[test]
fn parts_are_joined() {
    let parts = vec!["read".to_string(), "write".to_string(), "admin".to_string()];
    assert_eq!(join(&parts, " "), "read write admin");
    assert_eq!(join(&parts[..1].to_vec(), " "), "read");
    assert_eq!(join(&vec![], " "), "");
}

#[test]
fn numbers_are_written_in_decimal() {
    for n in [0, 9, 10, 429, 60_000, u64::MAX] {
        assert_eq!(decimal_text(n), n.to_string());
    }
}

#[test]
fn first_segment_ends_before_the_colons() {
    assert_eq!(first_segment("issuer::plugin::inner"), "issuer");
    assert_eq!(first_segment("issuer"), "issuer");
    assert_eq!(first_segment("::issuer"), "");
    assert_eq!(first_segment("a:b::c"), "a:b");
    assert_eq!(first_segment("a:"), "a:");
}
