use marketplace_kit::slug::{generate_listing_slug, generate_slug};
use marketplace_kit::url_normalizer::{hex_encode, strip_trailing_slash, url_encode};

#[test]
fn test_generate_slug() {
    assert_eq!(generate_slug("Laptop Dell XPS 13"), "laptop-dell-xps-13");
    assert_eq!(generate_slug("Telefon iPhone 16 Pro"), "telefon-iphone-16-pro");
    assert_eq!(generate_slug("Căști Sony WH-1000XM5"), "casti-sony-wh-1000xm5");
}

#[test]
fn test_generate_listing_slug() {
    assert_eq!(generate_listing_slug("Laptop Dell XPS 13"), "laptop-dell-xps-13");
}

#[test]
fn test_slug_special_chars() {
    assert_eq!(generate_slug("Telefon & laptop"), "telefon-laptop");
    assert_eq!(generate_slug("Preț: 100 lei"), "pret-100-lei");
}

#[test]
fn test_slug_empty() {
    assert_eq!(generate_slug(""), "");
}

#[test]
fn test_slug_multiple_spaces() {
    assert_eq!(generate_slug("Laptop   Dell"), "laptop-dell");
}

#[test]
fn slug_edges() {
    assert_eq!(generate_slug("  --Hello--  World-- "), "hello-world");
    assert_eq!(generate_slug("ÎNVĂȚĂMÂNT"), "invatamant");
    assert_eq!(generate_slug("!!!"), "");
    assert_eq!(generate_slug("café"), "caf");
    let s = generate_slug("A -- b ?? c");
    assert_eq!(s, "a-b-c");
    assert_eq!(generate_slug(&s), s);
}

#[test]
fn test_url_encode_simple() {
    assert_eq!(url_encode("hello"), "hello");
    assert_eq!(url_encode("hello world"), "hello+world");
    assert_eq!(url_encode("a+b"), "a%2Bb");
    assert_eq!(url_encode("100% garanție"), "100%25+garan%C8%9Bie");
}

#[test]
fn test_url_encode_special_chars() {
    assert_eq!(url_encode("&<>\"'"), "%26%3C%3E%22%27");
    assert_eq!(url_encode("?error=test"), "%3Ferror%3Dtest");
}

#[test]
fn test_url_encode_already_encoded() {
    assert_eq!(url_encode("%20"), "%2520");
}

#[test]
fn url_encode_unreserved_and_hex() {
    assert_eq!(url_encode("a-b_c.d~e"), "a-b_c.d~e");
    assert_eq!(url_encode(""), "");
    assert_eq!(url_encode("/"), "%2F");
    assert_eq!(hex_encode(0), "00");
    assert_eq!(hex_encode(0xAB), "AB");
    assert_eq!(hex_encode(255), "FF");
}

#[test]
fn root_stays_unchanged() {
    assert_eq!(strip_trailing_slash("/", None), None);
}

#[test]
fn no_trailing_slash_passes_through() {
    assert_eq!(strip_trailing_slash("/produse", None), None);
}

#[test]
fn trailing_slash_redirects_301() {
    assert_eq!(strip_trailing_slash("/produse/", None), Some("/produse".to_string()));
}

#[test]
fn trailing_slash_preserves_query() {
    assert_eq!(
        strip_trailing_slash("/produse/", Some("page=2")),
        Some("/produse?page=2".to_string())
    );
}

#[test]
fn double_slash_strips_all() {
    assert_eq!(strip_trailing_slash("/about///", None), Some("/about".to_string()));
}

#[test]
fn root_with_query_no_redirect() {
    assert_eq!(strip_trailing_slash("/", Some("q=test")), None);
}

#[test]
fn only_slashes_redirect_to_empty_path() {
    assert_eq!(strip_trailing_slash("//", None), Some("".to_string()));
    assert_eq!(strip_trailing_slash("/a/b/", Some("")), Some("/a/b?".to_string()));
}

#[test]
fn slug_of_a_slug_is_itself() {
    for t in ["Căști Sony WH-1000XM5", "Telefon & laptop", "Laptop   Dell", "", "--A--b--", "ȘȚ ĂÎÂ 42"] {
        let s = generate_slug(t);
        assert_eq!(generate_slug(&s), s);
        assert!(s.chars().all(|c| c.is_ascii_lowercase() || c.is_ascii_digit() || c == '-'));
        assert!(!s.starts_with('-') && !s.ends_with('-') && !s.contains("--"));
    }
    assert_eq!(generate_slug("Telefon & laptop"), "telefon-laptop");
    assert_eq!(generate_slug("Laptop   Dell"), "laptop-dell");
    assert_eq!(generate_slug(""), "");
}
