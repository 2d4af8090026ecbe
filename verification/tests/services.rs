use marketplace_kit::services::auth::{
    hash_password, login_check, payload_subject, session_token, signup_check, token_error,
    token_subject, token_times, token_user, validated_subject, verify_password,
    verify_token_subject, AuthError, TOKEN_LIFETIME_SECS,
};
use marketplace_kit::services::cache::{ttl_seconds, CacheError};
use marketplace_kit::services::cart::{
    add_item_plan, after_user_line_update, cart_totals, check_qty, removal_outcome, updated_line,
    AddCartItemRequest, CartError, CartLine, CartUpsert, UserLineNext,
};
use marketplace_kit::services::categories::{build_tree, build_tree_checked, Category, CategoryError};
use marketplace_kit::services::common::{json_or_empty, like_pattern, page_offset};
use marketplace_kit::services::knowledge::{
    article_order, article_to_rag, strip_frontmatter, ArticleFilter, ArticleText, KnowledgeError,
};
use marketplace_kit::services::listings::{
    check_category, check_title, check_user, listing_currency, update_listing_sql,
    CreateListingRequest, ListingError, UpdateListingRequest,
};
use marketplace_kit::services::orders::{
    order_notes, order_total, stock_decision, update_outcome, validate_order, OrderError,
    PlaceOrderRequest,
};
use marketplace_kit::services::products::{
    build_page_numbers, check_new_product, delete_outcome, found_product, merge_update,
    total_pages, Product, ProductError, UpdateProductRequest, PER_PAGE,
};
use marketplace_kit::services::storage::{LocalStorage, StorageError};
use marketplace_kit::services::wallet::{
    check_amount, withdrawal_outcome, BalanceResponse, WalletError,
};

// ---- cache ----

#[test]
fn test_cache_error_display() {
    let err = CacheError::Miss("key not found".into());
    assert_eq!(err.message(), "Cache miss: key not found");
    let err = CacheError::Backend("connection failed".into());
    assert!(err.message().contains("connection failed"));
}

#[test]
fn test_cache_error_from_serde() {
    let serde_err = serde_json::from_str::<serde_json::Value>("invalid{json").unwrap_err();
    let err = CacheError::Serialization(serde_err.to_string());
    assert!(err.message().contains("Serialization"));
}

#[test]
fn test_ttl_positive() {
    let ttl = std::time::Duration::from_secs(60);
    assert!(ttl.as_secs() > 0);
    assert_eq!(ttl_seconds(ttl.as_secs()), 60);
    let ttl2 = std::time::Duration::from_millis(500);
    assert!(ttl2.as_millis() > 0);
}

#[test]
fn ttl_wraps_like_a_cast() {
    assert_eq!(ttl_seconds(0), 0);
    assert_eq!(ttl_seconds(i64::MAX as u64), i64::MAX);
    assert_eq!(ttl_seconds(u64::MAX), -1);
    assert_eq!(ttl_seconds(1u64 << 63), i64::MIN);
    assert_eq!(CacheError::Database("d".into()).message(), "Database error: d");
    assert_eq!(CacheError::Serialization("s".into()).message(), "Serialization error: s");
}

// ---- auth ----

#[test]
fn test_email_validation_contains_at() {
    let valid = "user@example.com";
    let invalid = "userexample.com";
    assert!(valid.contains('@'));
    assert!(!invalid.contains('@'));
}

#[test]
fn test_password_min_length() {
    let short = "ab";
    let long_enough = "password123";
    assert!(short.len() < 8, "password too short");
    assert!(long_enough.len() >= 8, "password ok");
}

#[test]
fn password_hash_round_trip() {
    let hash = hash_password("secret-pass").unwrap();
    assert!(hash.starts_with("$argon2"));
    assert_eq!(verify_password("secret-pass", &hash), Ok(true));
    assert_eq!(verify_password("wrong", &hash), Ok(false));
    assert_eq!(verify_password("secret-pass", "not a hash"), Err(AuthError::InvalidCredentials));
    assert_ne!(hash_password("secret-pass").unwrap(), hash);
}

#[test]
fn auth_decisions() {
    assert_eq!(signup_check(true), Err(AuthError::EmailExists));
    assert_eq!(signup_check(false), Ok(()));
    assert_eq!(login_check(Some(7), true), Ok(7));
    assert_eq!(login_check(Some(7), false), Err(AuthError::InvalidCredentials));
    assert_eq!(login_check::<i32>(None, true), Err(AuthError::InvalidCredentials));
    assert_eq!(token_times(1000), Some((1000 + TOKEN_LIFETIME_SECS, 1000)));
    assert_eq!(token_times(usize::MAX), None);
    assert_eq!(TOKEN_LIFETIME_SECS, 7 * 24 * 3600);
    assert_eq!(token_error(true), AuthError::TokenExpired);
    assert_eq!(token_error(false), AuthError::InvalidToken);
    assert_eq!(
        token_subject("550e8400-e29b-41d4-a716-446655440000"),
        Ok(0x550e8400_e29b_41d4_a716_446655440000u128)
    );
    assert_eq!(token_subject(" 550e8400-e29b-41d4-a716-446655440000"), Err(AuthError::InvalidToken));
    assert_eq!(token_user(Some("u")), Ok("u"));
    assert_eq!(token_user::<i32>(None), Err(AuthError::UserNotFound));
    assert_eq!(AuthError::InvalidCredentials.message(), "Invalid email or password");
    assert_eq!(AuthError::Database("x".into()).message(), "Database error: x");
    assert_eq!(AuthError::TokenExpired.message(), "Token expired");
}

// ---- cart ----

fn add_req(qty: i32, price: i64) -> AddCartItemRequest {
    AddCartItemRequest {
        product_slug: "p".into(),
        product_name: "P".into(),
        price_bani: price,
        qty,
    }
}

#[test]
fn cart_add_plan() {
    assert_eq!(add_item_plan(None, &add_req(0, 10)).unwrap_err(), CartError::InvalidQuantity);
    assert_eq!(add_item_plan(None, &add_req(1, 0)).unwrap_err(), CartError::InvalidPrice);
    assert_eq!(add_item_plan(None, &add_req(-1, -1)).unwrap_err(), CartError::InvalidQuantity);
    assert!(matches!(add_item_plan(None, &add_req(1, 10)), Ok(CartUpsert::BySession)));
    match add_item_plan(Some(0x550e8400_e29b_41d4_a716_446655440000u128), &add_req(2, 10)) {
        Ok(CartUpsert::ByUser { user_id, session_key }) => {
            assert_eq!(user_id, 0x550e8400_e29b_41d4_a716_446655440000u128);
            assert_eq!(session_key, "550e8400-e29b-41d4-a716-446655440000");
        }
        _ => panic!("expected a line keyed by the user"),
    }
    assert_eq!(after_user_line_update(0), UserLineNext::InsertLine);
    assert_eq!(after_user_line_update(3), UserLineNext::FetchLine);
    assert_eq!(check_qty(0), Err(CartError::InvalidQuantity));
    assert_eq!(check_qty(4), Ok(()));
    assert_eq!(removal_outcome(9, 0), Err(CartError::ItemNotFound(9)));
    assert_eq!(removal_outcome(9, 1), Ok(()));
    assert_eq!(updated_line(9, Some("line")), Ok("line"));
    assert_eq!(updated_line::<i32>(9, None), Err(CartError::ItemNotFound(9)));
}

#[test]
fn test_cart_compute_totals() {
    let lines = vec![
        CartLine { price_bani: 1000, qty: 2, user_id: None },
        CartLine { price_bani: 500, qty: 3, user_id: None },
    ];
    let totals = cart_totals(&lines).unwrap();
    assert_eq!(totals.total_bani, 3500);
    assert_eq!(totals.item_count, 5);
}

#[test]
fn test_cart_empty() {
    let totals = cart_totals(&[]).unwrap();
    assert_eq!(totals.total_bani, 0);
    assert_eq!(totals.item_count, 0);
    assert_eq!(totals.user_id, None);
}

#[test]
fn cart_totals_owner_and_overflow() {
    let lines = vec![
        CartLine { price_bani: 1, qty: 1, user_id: None },
        CartLine { price_bani: 1, qty: 1, user_id: Some(5) },
        CartLine { price_bani: 1, qty: 1, user_id: Some(6) },
    ];
    assert_eq!(cart_totals(&lines).unwrap().user_id, Some(5));
    let big = vec![
        CartLine { price_bani: i64::MAX, qty: 1, user_id: None },
        CartLine { price_bani: 1, qty: 1, user_id: None },
    ];
    assert!(cart_totals(&big).is_none());
    let many = vec![CartLine { price_bani: 1, qty: i32::MAX, user_id: None }; 2];
    assert!(cart_totals(&many).is_none());
}

// ---- categories ----

fn category(id: i32, name: &str, parent: Option<i32>) -> Category {
    Category {
        id,
        name: name.into(),
        slug: name.to_lowercase(),
        parent_id: parent,
        icon: Some("*".into()),
        description: Some(String::new()),
    }
}

fn mock_categories() -> Vec<Category> {
    vec![
        category(1, "Electronice", None),
        category(2, "Laptopuri", Some(1)),
        category(3, "Desktop-uri", Some(1)),
        category(4, "Gaming", Some(2)),
    ]
}

#[test]
fn test_build_tree_root_count() {
    let tree = build_tree(mock_categories());
    assert_eq!(tree.len(), 1, "one root: Electronice");
    assert_eq!(tree[0].name, "Electronice");
}

#[test]
fn test_build_tree_children_count() {
    let tree = build_tree(mock_categories());
    assert_eq!(tree[0].children.len(), 2, "Electronice has two children");
}

#[test]
fn test_build_tree_nested_depth() {
    let tree = build_tree(mock_categories());
    let laptopuri = &tree[0].children[0];
    assert_eq!(laptopuri.name, "Laptopuri");
    assert_eq!(laptopuri.children.len(), 1, "Laptopuri has one child");
    assert_eq!(laptopuri.children[0].name, "Gaming");
}

#[test]
fn checked_tree_of_a_forest_is_the_tree() {
    let tree = build_tree_checked(mock_categories()).expect("no cycle");
    assert_eq!(tree.len(), 1);
    assert_eq!(tree[0].children.len(), 2);
    assert_eq!(tree[0].children[0].children[0].name, "Gaming");
    assert!(build_tree_checked(vec![]).unwrap().is_empty());
}

#[test]
fn checked_tree_refuses_a_cycle_below_a_root() {
    let cats = vec![
        category(1, "A", None),
        category(2, "B", Some(1)),
        category(1, "C", Some(2)),
    ];
    assert!(build_tree_checked(cats).is_none());
    // A cycle that no root reaches does not stop the tree.
    let cats = vec![category(1, "A", None), category(2, "B", Some(3)), category(3, "C", Some(2))];
    assert_eq!(build_tree_checked(cats).unwrap().len(), 1);
}

#[test]
fn test_build_tree_empty() {
    let tree = build_tree(vec![]);
    assert!(tree.is_empty());
}

#[test]
fn test_build_tree_no_root() {
    let cats = vec![Category {
        id: 2,
        name: "Laptopuri".into(),
        slug: "laptopuri".into(),
        parent_id: Some(1),
        icon: None,
        description: None,
    }];
    let tree = build_tree(cats);
    assert!(tree.is_empty(), "without a root the tree is empty");
}

#[test]
fn tree_nodes_copy_fields_and_default_texts() {
    let mut cats = mock_categories();
    cats[0].icon = None;
    cats[0].description = None;
    cats.push(category(5, "Carti", None));
    let tree = build_tree(cats);
    assert_eq!(tree.len(), 2);
    assert_eq!(tree[0].icon, "");
    assert_eq!(tree[0].description, "");
    assert_eq!(tree[0].slug, "electronice");
    assert_eq!(tree[1].id, 5);
    assert!(tree[1].children.is_empty());
    assert_eq!(tree[0].children[1].name, "Desktop-uri");
    assert_eq!(CategoryError::NotFound("x".into()).message(), "Category not found: x");
}

// ---- knowledge ----

#[test]
fn test_strip_frontmatter() {
    let content = "---\ntitle: Test\nslug: test\n---\n\n# Articolul meu\n\nConținut.";
    let result = strip_frontmatter(content);
    assert_eq!(result.trim(), "# Articolul meu\n\nConținut.");
}

#[test]
fn test_strip_frontmatter_no_frontmatter() {
    let content = "# Doar articol\nfără frontmatter.";
    assert_eq!(strip_frontmatter(content), content);
}

#[test]
fn frontmatter_edges() {
    assert_eq!(strip_frontmatter("---\nunterminated"), "---\nunterminated");
    assert_eq!(strip_frontmatter("------body"), "body");
    assert_eq!(strip_frontmatter(""), "");
}

#[test]
fn test_article_to_rag_contains_title() {
    let article = ArticleText {
        title: "Test Article".into(),
        slug: "test-article".into(),
        summary: Some("Un rezumat.".into()),
        content: "---\n---\n\nConținut real.".into(),
        difficulty: Some("beginner".into()),
        related_concepts: None,
    };
    let rag = article_to_rag(&article);
    assert!(rag.content.contains("Test Article"));
    assert!(rag.content.contains("Conținut real."));
    assert_eq!(rag.doc_type, "article");
    assert_eq!(rag.url, "/biblioteca/test-article");
}

#[test]
fn rag_document_text() {
    let article = ArticleText {
        title: "T".into(),
        slug: "s".into(),
        summary: None,
        content: "body".into(),
        difficulty: None,
        related_concepts: Some(vec!["a".into(), "b".into()]),
    };
    let rag = article_to_rag(&article);
    assert_eq!(rag.id, "article:s");
    assert_eq!(rag.title, "T");
    assert_eq!(
        rag.content,
        "Titlu: T\n\nRezumat: \n\nConținut: body\n\nDificultate: general\n\nConcepte: a, b"
    );
}

#[test]
fn test_article_filter_default() {
    let filter = ArticleFilter::default();
    assert!(filter.difficulty.is_none());
    assert!(filter.sort.is_none());
}

#[test]
fn test_article_filter_with_values() {
    let filter = ArticleFilter {
        difficulty: Some("advanced".into()),
        sort: Some("newest".into()),
    };
    assert_eq!(filter.difficulty.unwrap(), "advanced");
    assert_eq!(filter.sort.unwrap(), "newest");
}

#[test]
fn article_sort_orders() {
    assert_eq!(article_order(Some("newest")), "published_at DESC NULLS LAST");
    assert_eq!(article_order(Some("oldest")), "published_at ASC NULLS LAST");
    assert_eq!(article_order(Some("longest")), "reading_time_minutes DESC NULLS LAST");
    assert_eq!(article_order(Some("shortest")), "reading_time_minutes ASC NULLS LAST");
    assert_eq!(article_order(Some("x")), "category_path[1], published_at DESC");
    assert_eq!(article_order(None), "category_path[1], published_at DESC");
    assert_eq!(KnowledgeError::NotFound("s".into()).message(), "Article not found: s");
}

// ---- listings ----

fn empty_update() -> UpdateListingRequest {
    UpdateListingRequest {
        title: None,
        description: None,
        price: None,
        currency: None,
        attributes: None,
        image_urls: None,
        phone: None,
        contact_email: None,
        county: None,
        city: None,
        status: None,
    }
}

#[test]
fn test_listing_validation_empty_title() {
    let req = CreateListingRequest {
        category_id: 1,
        title: String::new(),
        description: None,
        price: None,
        currency: None,
        attributes: None,
        image_urls: None,
        phone: None,
        contact_email: None,
        county: None,
        city: None,
    };
    assert!(req.title.is_empty(), "the title cannot be empty");
    assert_eq!(
        check_title(&req.title),
        Err(ListingError::Validation("Title cannot be empty".into()))
    );
}

#[test]
fn test_listing_price_positive() {
    let req = CreateListingRequest {
        category_id: 1,
        title: "Test".into(),
        description: None,
        price: Some(9999),
        currency: None,
        attributes: None,
        image_urls: None,
        phone: None,
        contact_email: None,
        county: None,
        city: None,
    };
    assert!(req.price.unwrap() >= 0, "the price cannot be negative");
}

#[test]
fn test_listing_price_zero_allowed() {
    let req = CreateListingRequest {
        category_id: 1,
        title: "Gratis".into(),
        description: None,
        price: Some(0),
        currency: None,
        attributes: None,
        image_urls: None,
        phone: None,
        contact_email: None,
        county: None,
        city: None,
    };
    if let Some(price) = req.price {
        assert_eq!(price, 0, "price 0 means free");
    }
}

#[test]
fn test_listing_default_currency() {
    let currency = None;
    assert_eq!(listing_currency(currency), "RON");
}

#[test]
fn listing_checks() {
    assert_eq!(check_category(5, true), Ok(()));
    assert_eq!(check_category(999, false), Err(ListingError::CategoryNotFound(999)));
    assert_eq!(check_user(0, false), Err(ListingError::UserNotFound(0)));
    assert_eq!(check_user(0, true), Ok(()));
    assert_eq!(check_title("  "), Err(ListingError::Validation("Title cannot be empty".into())));
    assert_eq!(check_title(" x "), Ok(()));
    assert_eq!(listing_currency(Some("EUR".into())), "EUR");
    assert_eq!(ListingError::CategoryNotFound(999).message(), "Category not found: 999");
    assert_eq!(
        ListingError::NotFound(0).message(),
        "Listing not found: 00000000-0000-0000-0000-000000000000"
    );
}

#[test]
fn listing_update_sql() {
    let returning = " RETURNING id, user_id, category_id, title, description, price,\n                   currency, attributes, image_urls, phone, contact_email,\n                   county, city, status, views, created_at, updated_at, expires_at";
    assert_eq!(
        update_listing_sql(&empty_update()),
        format!("UPDATE listings SET updated_at = NOW() WHERE id = $1{}", returning)
    );
    let mut req = empty_update();
    req.title = Some("t".into());
    req.city = Some("c".into());
    assert_eq!(
        update_listing_sql(&req),
        format!(
            "UPDATE listings SET title = $1, city = $2, updated_at = NOW() WHERE id = $3{}",
            returning
        )
    );
}

// ---- orders ----

fn order_req(name: &str, address: &str) -> PlaceOrderRequest {
    PlaceOrderRequest {
        session_id: "test-session".into(),
        guest_email: None,
        shipping_name: name.into(),
        shipping_address: address.into(),
        shipping_phone: "+37360000000".into(),
        notes: None,
    }
}

#[test]
fn test_place_order_request() {
    let req = order_req("John Doe", "Str. Mare, Nr. 1");
    assert_eq!(req.shipping_name, "John Doe");
    assert!(req.notes.is_none());
}

#[test]
fn test_order_error_messages() {
    let err = OrderError::EmptyCart;
    assert_eq!(err.message(), "Empty cart");
    let err = OrderError::Validation("Name required".into());
    assert!(err.message().contains("Name required"));
}

#[test]
fn order_checks_and_totals() {
    let line = ("s".to_string(), "S".to_string(), 1000i64, 2i32);
    assert_eq!(validate_order(&order_req("A", "B"), &[]), Err(OrderError::EmptyCart));
    assert_eq!(
        validate_order(&order_req(" ", "B"), &[line.clone()]),
        Err(OrderError::Validation("Name and address are required".into()))
    );
    assert_eq!(validate_order(&order_req("A", "B"), &[line.clone()]), Ok(()));
    let lines = vec![line.clone(), ("t".to_string(), "T".to_string(), 500, 3)];
    assert_eq!(order_total(&lines), Some(3500));
    assert_eq!(order_total(&[]), Some(0));
    assert_eq!(order_total(&[("x".to_string(), "X".to_string(), i64::MAX, 2)]), None);
    assert_eq!(order_notes(None), "");
    assert_eq!(order_notes(Some("n".into())), "n");
    assert_eq!(stock_decision("s", Some(5), 5), Ok(()));
    assert_eq!(
        stock_decision("s", Some(1), 2),
        Err(OrderError::InsufficientStock("s".into(), 1, 2))
    );
    assert_eq!(
        stock_decision("gone", None, 2),
        Err(OrderError::InsufficientStock("gone".into(), 0, 2))
    );
    assert_eq!(update_outcome(3, 0), Err(OrderError::NotFound(3)));
    assert_eq!(update_outcome(3, 1), Ok(()));
    assert_eq!(
        OrderError::InsufficientStock("s".into(), 1, 2).message(),
        "Stoc insuficient pentru s: 1 disponibil, 2 cerut"
    );
}

// ---- products ----

#[test]
fn test_total_pages_exact() {
    assert_eq!(total_pages(24), 1, "24 products = 1 page");
    assert_eq!(total_pages(48), 2, "48 products = 2 pages");
}

#[test]
fn test_total_pages_round_up() {
    assert_eq!(total_pages(25), 2, "25 products = 2 pages (rounded up)");
    assert_eq!(total_pages(1), 1);
}

#[test]
fn test_total_pages_zero() {
    assert_eq!(total_pages(0), 1, "0 products = 1 empty page");
}

#[test]
fn test_page_numbers_first_page() {
    let pages = build_page_numbers(1, 10);
    assert_eq!(pages, vec![1, 2, 3, -1, 8, 9, 10]);
}

#[test]
fn test_page_numbers_middle() {
    let pages = build_page_numbers(5, 10);
    assert_eq!(pages, vec![1, 2, 3, 4, 5, 6, 7, 8, 9, 10]);
}

#[test]
fn test_page_numbers_last_page() {
    let pages = build_page_numbers(10, 10);
    assert_eq!(pages, vec![1, 2, 3, -1, 8, 9, 10]);
}

#[test]
fn test_page_numbers_few_pages() {
    let pages = build_page_numbers(1, 3);
    assert_eq!(pages, vec![1, 2, 3], "3 pages = no ellipsis");
}

#[test]
fn test_page_numbers_many_first() {
    let pages = build_page_numbers(1, 20);
    assert_eq!(pages, vec![1, 2, 3, -1, 18, 19, 20]);
}

#[test]
fn test_page_numbers_many_middle() {
    let pages = build_page_numbers(10, 20);
    assert_eq!(pages, vec![1, 2, 3, -1, 8, 9, 10, 11, 12, -1, 18, 19, 20]);
}

#[test]
fn page_number_edges() {
    assert_eq!(build_page_numbers(1, 1), vec![1]);
    assert_eq!(build_page_numbers(1, 0), Vec::<i64>::new());
    assert_eq!(build_page_numbers(6, 12), vec![1, 2, 3, 4, 5, 6, 7, 8, -1, 10, 11, 12]);
    assert_eq!(PER_PAGE, 24);
    assert_eq!(total_pages(-5), 0);
    assert_eq!(total_pages(-48), -2);
}

fn sample_product() -> Product {
    Product {
        id: 1,
        brand: "Dell".into(),
        name: "XPS".into(),
        slug: "dell-xps".into(),
        category_id: 2,
        release_year: Some(2020),
        specs: serde_json::Value::Null,
        price_new: Some(100),
        affiliate_url: None,
        image_url: Some("a.jpg".into()),
        stock_count: 3,
    }
}

#[test]
fn product_checks_and_merge() {
    assert_eq!(
        check_new_product("", "x"),
        Err(ProductError::Validation("Brand and name are required".into()))
    );
    assert_eq!(check_new_product("b", "n"), Ok(()));
    assert_eq!(found_product("s", Some(1)), Ok(1));
    assert_eq!(found_product::<i32>("s", None), Err(ProductError::NotFound("s".into())));
    assert_eq!(delete_outcome("s", 0), Err(ProductError::NotFound("s".into())));
    assert_eq!(delete_outcome("s", 2), Ok(()));
    let req = UpdateProductRequest {
        brand: None,
        name: Some("XPS 13".into()),
        stock_count: Some(0),
        slug: None,
        category_id: None,
        release_year: None,
        specs: None,
        price_new: Some(90),
        affiliate_url: Some("http://a".into()),
        image_url: None,
    };
    let p = merge_update(sample_product(), req);
    assert_eq!(p.id, 1);
    assert_eq!(p.brand, "Dell");
    assert_eq!(p.name, "XPS 13");
    assert_eq!(p.stock_count, 0);
    assert_eq!(p.release_year, Some(2020));
    assert_eq!(p.price_new, Some(90));
    assert_eq!(p.affiliate_url.as_deref(), Some("http://a"));
    assert_eq!(p.image_url.as_deref(), Some("a.jpg"));
    assert_eq!(ProductError::NotFound("s".into()).message(), "Product not found: s");
}

// ---- common ----

#[test]
fn common_helpers() {
    assert_eq!(page_offset(1, 24), Some(0));
    assert_eq!(page_offset(3, 24), Some(48));
    assert_eq!(page_offset(0, 24), Some(-24));
    assert_eq!(page_offset(i64::MIN, 1), None);
    assert_eq!(page_offset(i64::MAX, 2), None);
    assert_eq!(like_pattern("dell"), "%dell%");
    assert_eq!(json_or_empty(None), serde_json::Value::Object(serde_json::Map::new()));
    assert_eq!(json_or_empty(Some(serde_json::Value::Bool(true))), serde_json::Value::Bool(true));
}

// ---- storage ----

#[test]
fn test_storage_error_messages() {
    let err = StorageError::NotFound("file.jpg".into());
    assert_eq!(err.message(), "Not found: file.jpg");

    let err = StorageError::InvalidPath("../evil".into());
    assert_eq!(err.message(), "Invalid path: ../evil");

    let err = StorageError::Backend("disk full".into());
    assert!(err.message().contains("disk full"));
}

#[test]
fn test_path_format() {
    let prefix = "products";
    let ext = "jpg";
    let path = LocalStorage::file_name(prefix, ext);
    assert!(path.contains("products/"));
    assert!(path.contains(".jpg"));
}

#[test]
fn test_storage_error_from_io() {
    let io_err = std::io::Error::new(std::io::ErrorKind::NotFound, "file not found");
    let err = StorageError::Io(io_err.to_string());
    assert!(err.message().contains("IO error"));
}

#[test]
fn storage_paths_and_urls() {
    let s = LocalStorage::new("/var/uploads", "https://cdn.example/");
    assert_eq!(s.base_dir(), "/var/uploads");
    assert_eq!(s.url("products/a.jpg"), "https://cdn.example/products/a.jpg");
    assert_eq!(
        LocalStorage::file_name_with("products/", 0x550e8400_e29b_41d4_a716_446655440000u128, "png"),
        "products/550e8400-e29b-41d4-a716-446655440000.png"
    );
    let a = LocalStorage::file_name("p", "x");
    let b = LocalStorage::file_name("p", "x");
    assert_ne!(a, b);
    assert_eq!(a.len(), "p/".len() + 36 + ".x".len());
}

// ---- wallet ----

#[test]
fn test_amount_positive() {
    assert!(check_amount(100).is_ok(), "the amount must be positive");
    assert!(check_amount(-50).is_err(), "a negative amount is invalid");
}

#[test]
fn test_balance_default() {
    let balance = BalanceResponse { balance: 0, currency: "RON".into() };
    assert_eq!(balance.balance, 0);
    assert_eq!(balance.currency, "RON");
}

#[test]
fn wallet_decisions() {
    assert_eq!(check_amount(0), Err(WalletError::InvalidAmount));
    assert_eq!(withdrawal_outcome::<i64>(None), Err(WalletError::InsufficientBalance));
    assert_eq!(withdrawal_outcome(Some(5i64)), Ok(5));
    assert_eq!(WalletError::InvalidAmount.message(), "Amount must be positive");
    assert_eq!(
        WalletError::UserNotFound(0x550e8400_e29b_41d4_a716_446655440000u128).message(),
        "User not found: 550e8400-e29b-41d4-a716-446655440000"
    );
}

// ---- session tokens ----

fn unix_now() -> usize {
    std::time::SystemTime::now().duration_since(std::time::UNIX_EPOCH).unwrap().as_secs() as usize
}

#[test]
fn session_token_round_trip() {
    let id: u128 = 0x550e8400_e29b_41d4_a716_446655440000;
    let t = session_token(id, "a@b.ro", "user", unix_now(), "secret").unwrap();
    assert_eq!(t.split('.').count(), 3);
    assert_eq!(verify_token_subject(&t, "secret"), Ok(id));
    assert_eq!(verify_token_subject(&t, "other"), Err(AuthError::InvalidToken));
    assert_eq!(verify_token_subject("not.a.token", "secret"), Err(AuthError::InvalidToken));
    assert_eq!(verify_token_subject("", "secret"), Err(AuthError::InvalidToken));
}

#[test]
fn session_token_expired_and_overflow() {
    let t = session_token(7, "a@b.ro", "admin", 1000, "k").unwrap();
    assert_eq!(verify_token_subject(&t, "k"), Err(AuthError::TokenExpired));
    assert!(session_token(7, "a@b.ro", "admin", usize::MAX - TOKEN_LIFETIME_SECS + 1, "k").is_none());
}

#[test]
fn token_claims_steps() {
    assert_eq!(payload_subject(&None), Err(AuthError::InvalidToken));
    let ok: serde_json::Value = serde_json::from_str(
        r#"{"sub":"x","email":"e","role":"r","exp":5,"iat":1}"#,
    ).unwrap();
    assert_eq!(payload_subject(&Some(ok)), Ok("x".to_string()));
    let no_email: serde_json::Value =
        serde_json::from_str(r#"{"sub":"x","role":"r","exp":5,"iat":1}"#).unwrap();
    assert_eq!(payload_subject(&Some(no_email)), Err(AuthError::InvalidToken));
    let neg: serde_json::Value =
        serde_json::from_str(r#"{"sub":"x","email":"e","role":"r","exp":-5,"iat":1}"#).unwrap();
    assert_eq!(payload_subject(&Some(neg)), Err(AuthError::InvalidToken));
    assert_eq!(validated_subject(Err(true), "x"), Err(AuthError::TokenExpired));
    assert_eq!(validated_subject(Err(false), "x"), Err(AuthError::InvalidToken));
    assert_eq!(
        validated_subject(Ok(()), "550e8400-e29b-41d4-a716-446655440000"),
        Ok(0x550e8400_e29b_41d4_a716_446655440000)
    );
}
