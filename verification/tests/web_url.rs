use moyu::web_url::{is_fenbi_url, normalize_url, DEFAULT_URL};

#[test]
fn blank_or_missing_address_opens_the_default_page() {
    assert_eq!(normalize_url(None), DEFAULT_URL);
    assert_eq!(normalize_url(Some("   ".to_string())), DEFAULT_URL);
    assert_eq!(normalize_url(Some(String::new())), DEFAULT_URL);
}

#[test]
fn addresses_are_serialized_by_the_url_parser() {
    assert_eq!(normalize_url(Some(" https://Example.com ".to_string())), "https://example.com/");
    assert_eq!(normalize_url(Some("example.com/a b".to_string())), "https://example.com/a%20b");
    assert_eq!(normalize_url(Some("https://www.fenbi.com/x?y=1".to_string())), "https://www.fenbi.com/x?y=1");
}

#[test]
fn unparseable_address_falls_back_to_default() {
    assert_eq!(normalize_url(Some("[".to_string())), DEFAULT_URL);
}

#[test]
fn fenbi_pages_are_recognised() {
    assert!(is_fenbi_url("https://www.fenbi.com/"));
    assert!(is_fenbi_url("https://spa.fenbi.com/ti/exam"));
    assert!(!is_fenbi_url("https://fenbi.com/"));
    assert!(!is_fenbi_url("https://notfenbi.com/"));
    assert!(!is_fenbi_url("not a url"));
}
