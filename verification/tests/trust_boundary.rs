use http::{HeaderMap, HeaderName};
use marketplace_kit::trust_boundary::boundary::TrustBoundary;
use marketplace_kit::trust_boundary::safe_body::{SafeBody, MAX_BODY_BYTES};
use marketplace_kit::trust_boundary::safe_cookies::SafeCookies;
use marketplace_kit::trust_boundary::safe_headers::SafeHeaders;
use marketplace_kit::trust_boundary::safe_path::SafePath;
use marketplace_kit::trust_boundary::safe_request::{SafeMethod, SafeRequest};
use marketplace_kit::trust_boundary::safe_response::{SafeResponse, SafeStatus};
use marketplace_kit::trust_boundary::BoundaryError;

fn make_headers(pairs: &[(&str, &str)]) -> HeaderMap {
    let mut map = HeaderMap::new();
    for (k, v) in pairs {
        map.insert(HeaderName::from_bytes(k.as_bytes()).unwrap(), v.parse().unwrap());
    }
    map
}

fn entries(pairs: &[(&str, &[u8])]) -> Vec<(String, Vec<u8>)> {
    pairs.iter().map(|(k, v)| (k.to_string(), v.to_vec())).collect()
}

// ---- paths ----

#[test]
fn test_valid_path() {
    let p = SafePath::parse("/products").unwrap();
    assert_eq!(p.as_str(), "/products");
}

#[test]
fn test_root() {
    let p = SafePath::parse("/").unwrap();
    assert_eq!(p.as_str(), "/");
}

#[test]
fn test_path_with_segments() {
    let p = SafePath::parse("/product/laptop-dell").unwrap();
    assert_eq!(p.segments(), vec!["product", "laptop-dell"]);
}

#[test]
fn safe_path_test_path_traversal_blocked() {
    let r = SafePath::parse("/../etc/passwd");
    assert!(r.is_err());
    assert!(matches!(r, Err(BoundaryError::PathTraversalDetected(_))));
}

#[test]
fn test_path_traversal_middle() {
    let r = SafePath::parse("/products/../admin");
    assert!(r.is_err());
}

#[test]
fn test_double_slash_normalized() {
    let p = SafePath::parse("/products//detail").unwrap();
    assert_eq!(p.as_str(), "/products/detail");
}

#[test]
fn test_null_byte_blocked() {
    let r = SafePath::parse("/products\0.html");
    assert!(r.is_err());
}

#[test]
fn test_too_long() {
    let long = "/".to_string() + &"a".repeat(256);
    let r = SafePath::parse(&long);
    assert!(r.is_err());
}

#[test]
fn test_no_leading_slash() {
    let r = SafePath::parse("products");
    assert!(r.is_err());
}

#[test]
fn test_path_with_query_string_whole() {
    let p = SafePath::parse("/search").unwrap();
    assert_eq!(p.as_str(), "/search");
}

#[test]
fn test_starts_with() {
    let p = SafePath::parse("/admin/products").unwrap();
    assert!(p.starts_with("/admin"));
    assert!(!p.starts_with("/cart"));
}

#[test]
fn path_errors_carry_details() {
    assert_eq!(
        SafePath::parse("products"),
        Err(BoundaryError::InvalidPath("products".to_string()))
    );
    assert_eq!(
        SafePath::parse(&("/".to_string() + &"a".repeat(255))),
        Err(BoundaryError::PathTooLong(256))
    );
    assert!(SafePath::parse(&("/".to_string() + &"a".repeat(254))).is_ok());
    assert!(matches!(SafePath::parse("/a\u{7}b"), Err(BoundaryError::InvalidCharacters(_))));
    assert_eq!(SafePath::parse("/a/b/").unwrap().as_str(), "/a/b/");
    assert_eq!(SafePath::parse("//").unwrap().as_str(), "/");
    assert_eq!(SafePath::root().as_str(), "/");
    assert!(SafePath::root().segments().is_empty());
    assert!(matches!(SafePath::parse("/..hidden"), Err(BoundaryError::PathTraversalDetected(_))));
    assert!(matches!(SafePath::parse("/a..b"), Err(BoundaryError::PathTraversalDetected(_))));
    assert!(SafePath::parse("/a.b/.c").is_ok());
}

// ---- cookies ----

#[test]
fn test_no_cookies() {
    let c = SafeCookies::parse_from_header(None).unwrap();
    assert_eq!(c.len(), 0);
    assert!(!c.is_authenticated());
}

#[test]
fn test_empty_header() {
    let c = SafeCookies::parse_from_header(Some("")).unwrap();
    assert_eq!(c.len(), 0);
}

#[test]
fn test_token_and_session() {
    let c = SafeCookies::parse_from_header(Some(
        "token=eyJhbGciOiJIUzI1NiJ9.test; session_id=550e8400-e29b-41d4-a716-446655440000",
    ))
    .unwrap();
    assert_eq!(c.token(), Some("eyJhbGciOiJIUzI1NiJ9.test"));
    assert_eq!(c.session_id(), Some("550e8400-e29b-41d4-a716-446655440000"));
    assert!(c.is_authenticated());
}

#[test]
fn test_token_only() {
    let c = SafeCookies::parse_from_header(Some("token=abc123")).unwrap();
    assert_eq!(c.token(), Some("abc123"));
    assert!(c.is_authenticated());
}

#[test]
fn test_session_id_variant() {
    let c = SafeCookies::parse_from_header(Some("session-id=abc")).unwrap();
    assert_eq!(c.session_id(), Some("abc"));
}

#[test]
fn test_csrf_token() {
    let c = SafeCookies::parse_from_header(Some("csrf_token=xyz")).unwrap();
    assert_eq!(c.csrf_token(), Some("xyz"));
}

#[test]
fn test_has_cookie() {
    let c = SafeCookies::parse_from_header(Some("token=abc; session_id=xyz")).unwrap();
    assert!(c.has("token"));
    assert!(c.has("session_id"));
    assert!(!c.has("nonexistent"));
}

#[test]
fn test_value_too_long() {
    let long_val = "a".repeat(257);
    let r = SafeCookies::parse_from_header(Some(&format!("token={}", long_val)));
    assert!(r.is_err());
}

#[test]
fn test_value_with_semicolon() {
    let c = SafeCookies::parse_from_header(Some("token=abc; session_id=xyz")).unwrap();
    assert_eq!(c.token(), Some("abc"));
}

#[test]
fn test_all_cookies() {
    let c = SafeCookies::parse_from_header(Some("a=1; b=2; c=3")).unwrap();
    assert_eq!(c.len(), 3);
}

#[test]
fn cookie_rules() {
    assert_eq!(
        SafeCookies::parse_from_header(Some(&format!("token={}", "a".repeat(257)))).unwrap_err(),
        BoundaryError::CookieTooLong("token".to_string())
    );
    assert!(SafeCookies::parse_from_header(Some(&format!("token={}", "a".repeat(256)))).is_ok());
    assert_eq!(
        SafeCookies::parse_from_header(Some("a=x,y")).unwrap_err(),
        BoundaryError::InvalidCookieValue("a".to_string())
    );
    assert_eq!(
        SafeCookies::parse_from_header(Some(" a = b c ")).unwrap_err(),
        BoundaryError::InvalidCookieValue("a".to_string())
    );
    let c = SafeCookies::parse_from_header(Some("flag; token = t1 ; token=t2; x=1=2")).unwrap();
    assert_eq!(c.len(), 3);
    assert_eq!(c.token(), Some("t2"));
    assert_eq!(
        c.all(),
        &[
            ("token".to_string(), "t1".to_string()),
            ("token".to_string(), "t2".to_string()),
            ("x".to_string(), "1=2".to_string())
        ]
    );
    assert!(!c.has("flag"));
    let e = SafeCookies::empty();
    assert_eq!(e.len(), 0);
    assert_eq!(e.token(), None);
}

#[test]
fn test_cookie_injection_detected() {
    let r = SafeCookies::parse_from_header(Some("token=valid_value"));
    assert!(r.is_ok());
    let cookies = r.unwrap();
    assert_eq!(cookies.token(), Some("valid_value"));
}

// ---- headers ----

#[test]
fn test_basic_headers() {
    let h = make_headers(&[("Content-Type", "text/html"), ("Host", "localhost:3001")]);
    let safe = SafeHeaders::parse(&h).unwrap();
    assert_eq!(safe.content_type(), Some("text/html"));
    assert_eq!(safe.host(), Some("localhost:3001"));
}

#[test]
fn test_origin_and_referer() {
    let h = make_headers(&[
        ("Origin", "http://localhost:3001"),
        ("Referer", "http://localhost:3001/products"),
    ]);
    let safe = SafeHeaders::parse(&h).unwrap();
    assert_eq!(safe.origin(), Some("http://localhost:3001"));
    assert_eq!(safe.referer(), Some("http://localhost:3001/products"));
}

#[test]
fn test_client_ip() {
    let h = make_headers(&[("X-Forwarded-For", "192.168.1.100, 10.0.0.1")]);
    let safe = SafeHeaders::parse(&h).unwrap();
    assert_eq!(safe.client_ip(), Some("192.168.1.100"));
}

#[test]
fn test_csrf_valid_origin() {
    let h = make_headers(&[("Origin", "http://localhost:3001")]);
    let safe = SafeHeaders::parse(&h).unwrap();
    assert!(safe.verify_csrf("http://localhost:3001"));
}

#[test]
fn test_csrf_invalid_origin() {
    let h = make_headers(&[("Origin", "http://evil.com")]);
    let safe = SafeHeaders::parse(&h).unwrap();
    assert!(!safe.verify_csrf("http://localhost:3001"));
}

#[test]
fn test_csrf_no_headers() {
    let h = make_headers(&[]);
    let safe = SafeHeaders::parse(&h).unwrap();
    assert!(!safe.verify_csrf("http://localhost:3001"));
}

#[test]
fn test_header_injection_blocked() {
    let h = make_headers(&[("Cookie", "valid=1")]);
    let safe = SafeHeaders::parse(&h).unwrap();
    assert_eq!(safe.get("cookie"), Some("valid=1"));
    assert!(safe.get("nonexistent").is_none());
}

#[test]
fn test_case_insensitive_get() {
    let h = make_headers(&[("COOKIE", "token=abc")]);
    let safe = SafeHeaders::parse(&h).unwrap();
    assert_eq!(safe.get("cookie"), Some("token=abc"));
    assert_eq!(safe.get("COOKIE"), Some("token=abc"));
}

#[test]
fn test_user_agent() {
    let h = make_headers(&[("User-Agent", "curl/8.0")]);
    let safe = SafeHeaders::parse(&h).unwrap();
    assert_eq!(safe.user_agent(), Some("curl/8.0"));
}

#[test]
fn test_content_length() {
    let h = make_headers(&[("Content-Length", "42")]);
    let safe = SafeHeaders::parse(&h).unwrap();
    assert_eq!(safe.content_length(), Some(42));
}

#[test]
fn header_entries_rules() {
    assert_eq!(
        SafeHeaders::parse_entries(&entries(&[("X-A", b"a\r\nb")])).unwrap_err(),
        BoundaryError::InvalidHeader("x-a".to_string())
    );
    assert_eq!(
        SafeHeaders::parse_entries(&entries(&[("X-B", &[0xC3, 0xA9])])).unwrap_err(),
        BoundaryError::InvalidHeader("x-b".to_string())
    );
    let long = vec![b'a'; 4097];
    assert_eq!(
        SafeHeaders::parse_entries(&[("X-Long".to_string(), long)]).unwrap_err(),
        BoundaryError::HeaderTooLong("x-long".to_string())
    );
    let ok = SafeHeaders::parse_entries(&entries(&[
        ("Content-Type", b"Application/JSON"),
        ("Content-Length", b"abc"),
        ("X-Tab", b"a\tb"),
        ("X-Forwarded-For", b"  1.2.3.4  "),
        ("Host", b"one"),
        ("host", b"two"),
    ]))
    .unwrap();
    assert_eq!(ok.content_type(), Some("application/json"));
    assert_eq!(ok.content_length(), None);
    assert_eq!(ok.get("x-tab"), Some("a\tb"));
    assert_eq!(ok.client_ip(), Some("1.2.3.4"));
    assert_eq!(ok.host(), Some("two"));
    assert_eq!(ok.get("HOST"), Some("two"));
    let empty = SafeHeaders::empty();
    assert_eq!(empty.origin(), None);
    assert!(!empty.verify_csrf(""));
}

#[test]
fn csrf_rules() {
    let site = "https://shop.example";
    let check = |pairs: &[(&str, &[u8])]| {
        SafeHeaders::parse_entries(&entries(pairs)).unwrap().verify_csrf(site)
    };
    assert!(check(&[("Origin", b"https://shop.example")]));
    assert!(check(&[("Origin", b"http://localhost")]));
    assert!(check(&[("Origin", b"https://localhost:8443")]));
    assert!(!check(&[("Origin", b"http://localhost.evil.com")]));
    assert!(check(&[("Referer", b"https://shop.example/cart")]));
    assert!(check(&[("Origin", b"http://evil.com"), ("Referer", b"http://localhost:3000/x")]));
    assert!(!check(&[("Referer", b"https://evil.example/shop.example")]));
}

// ---- bodies ----

#[test]
fn test_empty_body() {
    let b = SafeBody::parse(Some("application/x-www-form-urlencoded"), b"").unwrap();
    assert!(b.is_empty());
}

#[test]
fn test_form_simple() {
    let b = SafeBody::parse(
        Some("application/x-www-form-urlencoded"),
        b"email=test@test.com&qty=3",
    )
    .unwrap();
    assert_eq!(b.form_field("email"), Some("test@test.com"));
    assert_eq!(b.form_field("qty"), Some("3"));
}

#[test]
fn test_form_url_encoded() {
    let b = SafeBody::parse(
        Some("application/x-www-form-urlencoded"),
        b"name=Ion+Popescu&note=Salut%20lume",
    )
    .unwrap();
    assert_eq!(b.form_field("name"), Some("Ion Popescu"));
    assert_eq!(b.form_field("note"), Some("Salut lume"));
}

#[test]
fn test_json() {
    let b = SafeBody::parse(Some("application/json"), br#"{"email":"test@test.com","qty":3}"#)
        .unwrap();
    let json = b.json().unwrap();
    assert_eq!(json["email"], "test@test.com");
    assert_eq!(json["qty"], 3);
}

#[test]
fn test_text() {
    let b = SafeBody::parse(Some("text/plain"), b"hello world").unwrap();
    assert_eq!(b.text(), Some("hello world"));
}

#[test]
fn test_body_too_large() {
    let large = vec![b'a'; 3 * 1024 * 1024];
    let r = SafeBody::parse(Some("text/plain"), &large);
    assert!(r.is_err());
    assert!(matches!(r, Err(BoundaryError::BodyTooLarge(_))));
}

#[test]
fn test_invalid_utf8() {
    let r = SafeBody::parse(Some("text/plain"), &[0xFF, 0xFF]);
    assert!(r.is_err());
}

#[test]
fn test_default_content_type_form() {
    let b = SafeBody::parse(None, b"a=1&b=2").unwrap();
    assert_eq!(b.form_field("a"), Some("1"));
}

#[test]
fn test_form_fields_all() {
    let b = SafeBody::parse(Some("application/x-www-form-urlencoded"), b"x=10&y=20").unwrap();
    let fields = b.form_fields().unwrap();
    assert_eq!(fields.len(), 2);
    assert_eq!(fields.get("x"), Some(&"10".to_string()));
}

#[test]
fn body_rules() {
    let at_limit = vec![b'a'; MAX_BODY_BYTES];
    assert!(SafeBody::parse(Some("text/plain"), &at_limit).is_ok());
    let over = vec![b'a'; MAX_BODY_BYTES + 1];
    assert_eq!(
        SafeBody::parse(Some("text/plain"), &over).unwrap_err(),
        BoundaryError::BodyTooLarge(MAX_BODY_BYTES + 1)
    );
    assert_eq!(SafeBody::parse(None, &[0xC0]).unwrap_err(), BoundaryError::InvalidUtf8);
    assert!(matches!(
        SafeBody::parse(Some("application/json"), b"{oops"),
        Err(BoundaryError::InvalidJson(_))
    ));
    let b = SafeBody::parse(Some("application/json; charset=utf-8"), b"[1]").unwrap();
    assert!(b.json().unwrap().is_array());
    assert_eq!(b.form_field("x"), None);
    assert_eq!(b.text(), None);
    let dup = SafeBody::parse(None, b"k=1&k=2").unwrap();
    assert_eq!(dup.form_field("k"), Some("2"));
    assert_eq!(dup.form_fields().unwrap().len(), 1);
    let other = SafeBody::parse(Some("application/octet-stream"), b"raw").unwrap();
    assert_eq!(other.text(), None);
    assert_eq!(other.form_field("raw"), Some(""));
    let text = SafeBody::parse(Some("Text/Plain"), b"a=1").unwrap();
    assert_eq!(text.form_field("a"), Some("1"));
    assert!(SafeBody::parse(Some("text/plain"), b"").unwrap().is_empty());
}

// ---- requests ----

#[test]
fn test_full_request_parsing() {
    let req = http::Request::builder()
        .method("POST")
        .uri("/cart/add")
        .header("Content-Type", "application/x-www-form-urlencoded")
        .header("Cookie", "token=abc123; session_id=xyz")
        .header("Origin", "http://localhost:3001")
        .body("slug=laptop-dell&qty=2")
        .unwrap();

    let safe = TrustBoundary::parse_request(&req).unwrap();
    assert_eq!(safe.method, SafeMethod::Post);
    assert_eq!(safe.path_str(), "/cart/add");
    assert_eq!(safe.cookies.token(), Some("abc123"));
    assert_eq!(safe.body.form_field("slug"), Some("laptop-dell"));
    assert_eq!(safe.body.form_field("qty"), Some("2"));
}

#[test]
fn lib_test_path_traversal_blocked() {
    let req = http::Request::builder().uri("/../etc/passwd").body("").unwrap();
    let r = TrustBoundary::parse_request(&req);
    assert!(r.is_err());
    assert!(matches!(r, Err(BoundaryError::PathTraversalDetected(_))));
}

#[test]
fn test_empty_request() {
    let req = http::Request::builder().uri("/").body("").unwrap();
    let safe = TrustBoundary::parse_request(&req).unwrap();
    assert_eq!(safe.method, SafeMethod::Get);
    assert_eq!(safe.path_str(), "/");
    assert!(safe.body.is_empty());
}

#[test]
fn test_json_body() {
    let req = http::Request::builder()
        .method("POST")
        .uri("/webhook")
        .header("Content-Type", "application/json")
        .body(r#"{"email":"test@test.com"}"#)
        .unwrap();
    let safe = TrustBoundary::parse_request(&req).unwrap();
    let json = safe.body.json().unwrap();
    assert_eq!(json["email"], "test@test.com");
}

#[test]
fn test_csrf_validation() {
    let req = http::Request::builder()
        .method("POST")
        .uri("/cart/add")
        .header("Origin", "http://evil.com")
        .body("slug=test")
        .unwrap();
    let safe = TrustBoundary::parse_request_with_config(&req, "http://localhost:3001").unwrap();
    assert!(!safe.verify_csrf());
}

#[test]
fn request_from_parts() {
    let headers = entries(&[
        ("Cookie", b"token=t; session_id=s"),
        ("X-Forwarded-For", b"9.9.9.9, 1.1.1.1"),
    ]);
    let safe = TrustBoundary::from_parts(
        "PATCH",
        "/a//b",
        Some("x=1"),
        &headers,
        b"q=1",
        "req-1".to_string(),
        "https://site",
    )
    .unwrap();
    assert_eq!(safe.method, SafeMethod::Patch);
    assert_eq!(safe.method_str(), "PATCH");
    assert_eq!(safe.path_str(), "/a/b");
    assert_eq!(safe.query_string.as_deref(), Some("x=1"));
    assert_eq!(safe.auth_token(), Some("t"));
    assert_eq!(safe.session_id(), Some("s"));
    assert_eq!(safe.client_ip, "9.9.9.9");
    assert_eq!(safe.request_id, "req-1");
    assert_eq!(safe.site_url, "https://site");
    assert_eq!(safe.body.form_field("q"), Some("1"));

    let no_ip = TrustBoundary::from_parts("GET", "/", None, &[], b"", "r".to_string(), "").unwrap();
    assert_eq!(no_ip.client_ip, "unknown");
    assert_eq!(
        TrustBoundary::from_parts(
            "GET",
            "/",
            None,
            &entries(&[("Cookie", b"a=b c")]),
            b"",
            "r".to_string(),
            ""
        )
        .unwrap_err(),
        BoundaryError::InvalidCookieValue("a".to_string())
    );
}

#[test]
fn methods_and_request_ids() {
    assert_eq!(SafeMethod::from_name("GET"), SafeMethod::Get);
    assert_eq!(SafeMethod::from_name("post"), SafeMethod::Get);
    assert_eq!(SafeMethod::from_name("BREW"), SafeMethod::Get);
    assert_eq!(SafeMethod::from_name("DELETE"), SafeMethod::Delete);
    assert_eq!(SafeMethod::from_method(&http::Method::PUT), SafeMethod::Put);
    assert_eq!(SafeMethod::Post.as_str(), "POST");
    assert!(SafeMethod::Get.is_get());
    assert!(!SafeMethod::Get.is_post());
    assert_eq!(SafeRequest::request_id_from_nanos(255), "req_ff");
    assert_eq!(SafeRequest::request_id_from_nanos(0), "req_0");
    let id = SafeRequest::generate_request_id();
    assert!(id.starts_with("req_"));
    assert!(id[4..].chars().all(|c| c.is_ascii_hexdigit() && !c.is_ascii_uppercase()));
    let empty = SafeRequest::empty();
    assert_eq!(empty.path_str(), "/");
    assert_eq!(empty.method, SafeMethod::Get);
    assert_eq!(empty.client_ip, "unknown");
}

#[test]
fn boundary_gates() {
    let post = TrustBoundary::from_parts(
        "POST",
        "/x",
        None,
        &entries(&[("Origin", b"http://evil.com")]),
        b"",
        "r".to_string(),
        "https://site",
    )
    .unwrap();
    let refused = TrustBoundary::verify_csrf(&post).unwrap_err();
    assert_eq!(refused.status, SafeStatus::Forbidden);
    assert_eq!(refused.body, "Forbidden");
    let get = TrustBoundary::from_parts(
        "GET",
        "/x",
        None,
        &entries(&[("Origin", b"http://evil.com")]),
        b"",
        "r".to_string(),
        "https://site",
    )
    .unwrap();
    assert!(TrustBoundary::verify_csrf(&get).is_ok());

    let r = TrustBoundary::error_response(&BoundaryError::PathTraversalDetected("/..".into()));
    assert_eq!(r.status, SafeStatus::BadRequest);
    assert_eq!(r.body, "Path traversal detectat: /..");
    let r = TrustBoundary::error_response(&BoundaryError::BodyTooLarge(5));
    assert_eq!(r.status, SafeStatus::BadRequest);
    assert_eq!(r.body, "Body prea mare (max 2MB)");
    let r = TrustBoundary::error_response(&BoundaryError::InvalidUtf8);
    assert_eq!(r.body, "Encoding invalid");
    let r = TrustBoundary::error_response(&BoundaryError::CookieTooLong("token".into()));
    assert_eq!(r.body, "Cookie prea lung: token");
}

#[test]
fn boundary_error_messages() {
    assert_eq!(
        BoundaryError::PathTooLong(300).message(),
        "Path prea lung: 300 caractere (max 255)"
    );
    assert_eq!(
        BoundaryError::BodyTooLarge(3).message(),
        "Body prea mare: 3 bytes (max 2MB)"
    );
    assert_eq!(BoundaryError::InvalidUtf8.message(), "Body nu e UTF-8 valid");
    assert_eq!(
        BoundaryError::PathTraversalDetected("/..".into()).message(),
        "Path traversal detectat: /.."
    );
    assert_eq!(BoundaryError::InvalidJson("m".into()).message(), "JSON invalid: m");
}

// ---- responses ----

#[test]
fn test_html_response() {
    let resp = SafeResponse::html("<h1>Hello</h1>");
    let http = resp.into_http_response();
    assert_eq!(http.status(), 200);
    assert_eq!(http.body(), "<h1>Hello</h1>");
}

#[test]
fn test_redirect() {
    let resp = SafeResponse::redirect("/products");
    let http = resp.into_http_response();
    assert_eq!(http.status(), 302);
    assert_eq!(http.headers().get("Location").unwrap(), "/products");
}

#[test]
fn test_security_headers_present() {
    let resp = SafeResponse::html("ok");
    let http = resp.into_http_response();
    assert!(http.headers().contains_key("Content-Security-Policy"));
    assert!(http.headers().contains_key("Strict-Transport-Security"));
    assert!(http.headers().contains_key("X-Frame-Options"));
    assert!(http.headers().contains_key("X-Content-Type-Options"));
    assert!(http.headers().contains_key("Referrer-Policy"));
}

#[test]
fn test_cookie() {
    let resp = SafeResponse::html("ok").with_cookie("token", "abc", 86400);
    let http = resp.into_http_response();
    let cookie = http.headers().get("Set-Cookie").unwrap().to_str().unwrap();
    assert!(cookie.contains("token=abc"));
    assert!(cookie.contains("HttpOnly"));
    assert!(cookie.contains("Max-Age=86400"));
}

#[test]
fn test_remove_cookie() {
    let resp = SafeResponse::html("ok").without_cookie("token");
    let http = resp.into_http_response();
    let cookie = http.headers().get("Set-Cookie").unwrap().to_str().unwrap();
    assert!(cookie.contains("token="));
    assert!(cookie.contains("Max-Age=0"));
}

#[test]
fn test_error_responses() {
    let bad = SafeResponse::bad_request("invalid");
    assert_eq!(bad.into_http_response().status(), 400);

    let unauth = SafeResponse::unauthorized("login required");
    assert_eq!(unauth.into_http_response().status(), 401);

    let nf = SafeResponse::not_found();
    assert_eq!(nf.into_http_response().status(), 404);
}

#[test]
fn test_json_response() {
    let json: serde_json::Value = serde_json::from_str(r#"{"ok": true}"#).unwrap();
    let resp = SafeResponse::json(&json);
    let http = resp.into_http_response();
    assert_eq!(http.status(), 200);
    assert_eq!(
        http.headers().get("Content-Type").unwrap(),
        "application/json; charset=utf-8"
    );
    assert_eq!(http.body(), r#"{"ok":true}"#);
}

#[test]
fn response_headers_in_order() {
    let resp = SafeResponse::redirect("/x")
        .with_cookie("a", "1", 5)
        .without_cookie("b")
        .with_header("X-Extra", "yes");
    assert_eq!(resp.status, SafeStatus::Redirect);
    let hs = resp.http_headers();
    let names: Vec<&str> = hs.iter().map(|(n, _)| n.as_str()).collect();
    assert_eq!(names[0], "Content-Type");
    assert!(names.contains(&"Location"));
    assert!(names.contains(&"X-Extra"));
    assert_eq!(names.iter().filter(|n| **n == "Set-Cookie").count(), 2);
    let forbidden = SafeResponse::forbidden().into_http_response();
    assert_eq!(forbidden.status(), 403);
    assert_eq!(forbidden.body(), "Forbidden");
    assert_eq!(SafeStatus::Success.code(), 200);
    assert_eq!(SafeStatus::NotFound.code(), 404);
    assert_eq!(SafeStatus::ServerError.code(), 500);
}

#[test]
fn bad_header_value_gives_server_error() {
    let resp = SafeResponse::html("ok").with_header("X-Bad", "a\nb");
    let http = resp.into_http_response();
    assert_eq!(http.status(), 500);
    assert_eq!(http.body(), "Internal Server Error");
    assert_eq!(http.headers().get("X-Frame-Options").unwrap(), "DENY");
    assert_eq!(http.headers().get("X-Content-Type-Options").unwrap(), "nosniff");
    assert_eq!(http.headers().get("Content-Type").unwrap(), "text/plain; charset=utf-8");
    assert!(http.headers().get("X-Bad").is_none());
    let bad_name = SafeResponse::html("ok").with_header("Bad Name", "v").into_http_response();
    assert_eq!(bad_name.status(), 500);
}

#[test]
fn sent_response_keeps_cookies_in_order() {
    let r = SafeResponse::html("ok").with_cookie("token", "abc", 86400).without_cookie("session_id");
    let h = r.into_http_response();
    assert_eq!(h.status(), 200);
    assert_eq!(h.body(), "ok");
    let cookies: Vec<&str> =
        h.headers().get_all("Set-Cookie").iter().map(|v| v.to_str().unwrap()).collect();
    assert_eq!(
        cookies,
        vec![
            "token=abc; HttpOnly; Path=/; SameSite=Lax; Max-Age=86400",
            "session_id=; HttpOnly; Path=/; SameSite=Lax; Max-Age=0",
        ]
    );
    assert_eq!(
        h.headers().get("Strict-Transport-Security").unwrap(),
        "max-age=31536000; includeSubDomains"
    );
    assert_eq!(h.headers().get("Referrer-Policy").unwrap(), "strict-origin-when-cross-origin");
}

#[test]
fn extra_header_of_a_security_name_comes_after_it() {
    let h = SafeResponse::html("ok").with_header("x-frame-options", "SAMEORIGIN").into_http_response();
    let v: Vec<&str> = h.headers().get_all("X-Frame-Options").iter().map(|v| v.to_str().unwrap()).collect();
    assert_eq!(v, vec!["DENY", "SAMEORIGIN"]);
}

#[test]
fn parsing_a_parsed_path_changes_nothing() {
    for raw in ["/a//b///c", "/", "//", "/x/y/", "/products"] {
        let once = SafePath::parse(raw).unwrap();
        let twice = SafePath::parse(once.as_str()).unwrap();
        assert_eq!(once.as_str(), twice.as_str());
    }
}

#[test]
fn content_type_is_the_last_one_lower_cased() {
    let es = vec![
        ("Content-Type".to_string(), b"text/HTML".to_vec()),
        ("X-A".to_string(), b"1".to_vec()),
        ("content-type".to_string(), b"Application/JSON".to_vec()),
    ];
    let h = SafeHeaders::parse_entries(&es).unwrap();
    assert_eq!(h.content_type(), Some("application/json"));
    assert_eq!(h.get("CONTENT-TYPE"), Some("Application/JSON"));
    let none = SafeHeaders::parse_entries(&[("X-A".to_string(), b"1".to_vec())]).unwrap();
    assert_eq!(none.content_type(), None);
}

#[test]
fn json_body_holds_the_parsed_document() {
    let body = br#"{"a": [1, 2], "b": "x"}"#;
    let parsed = SafeBody::parse(Some("application/json"), body).unwrap();
    let expected: serde_json::Value = serde_json::from_str(r#"{"a":[1,2],"b":"x"}"#).unwrap();
    assert_eq!(parsed.json(), Some(&expected));
}
