use marketplace_kit::path_prefix::PathPrefix;

#[test]
fn test_no_prefix() {
    let p = PathPrefix::new("");
    assert_eq!(p.prepend("/products"), "/products");
    assert_eq!(p.strip("/products"), "/products");
    assert_eq!(p.prefix(), "");
}

#[test]
fn test_prepend() {
    let p = PathPrefix::new("/shop");
    assert_eq!(p.prepend("/products"), "/shop/products");
    assert_eq!(p.prepend("/"), "/shop/");
    assert_eq!(p.prepend(""), "/shop");
    assert_eq!(p.prepend("/cart/add"), "/shop/cart/add");
}

#[test]
fn test_strip() {
    let p = PathPrefix::new("/shop");
    assert_eq!(p.strip("/shop/products"), "/products");
    assert_eq!(p.strip("/shop/"), "/");
    assert_eq!(p.strip("/shop"), "/");
    assert_eq!(p.strip("/other"), "/other");
}

#[test]
fn test_trailing_slash_normalization() {
    let p = PathPrefix::new("/shop/");
    assert_eq!(p.prefix(), "/shop");
    assert_eq!(p.prepend("/products"), "/shop/products");
}

#[test]
fn many_trailing_slashes_are_dropped() {
    assert_eq!(PathPrefix::new("/shop///").prefix(), "/shop");
    assert_eq!(PathPrefix::new("///").prefix(), "");
}

#[test]
fn strip_undoes_prepend() {
    let p = PathPrefix::new("/shop");
    for path in ["/products", "/", "/cart/add", "/a/b/c"] {
        assert_eq!(p.strip(&p.prepend(path)), path);
    }
}

#[test]
fn strip_route_prefix() {
    let p = PathPrefix::new("");
    assert_eq!(p.strip_prefix("/shop/products", "/shop/*"), "/products");
    assert_eq!(p.strip_prefix("/shop", "/shop/*"), "/");
    assert_eq!(p.strip_prefix("/shop/", "/shop"), "/");
    assert_eq!(p.strip_prefix("/other", "/shop/*"), "/other");
}
