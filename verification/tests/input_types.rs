use marketplace_kit::input_types::currency::Currency;
use marketplace_kit::input_types::error::InputError;
use marketplace_kit::input_types::factory::{InputFactory, QueryValidator};
use marketplace_kit::input_types::id_types::{CategoryId, OrderId, ProductId, SessionId, UserId};
use marketplace_kit::input_types::parser::{
    get_field, parse_any_into, parse_form, parse_form_into, url_decode, FormField,
};
use marketplace_kit::input_types::phone::PhoneNumber;
use marketplace_kit::input_types::quantity::Quantity;
use marketplace_kit::input_types::text_types::{
    Brand, Notes, ProductName, SearchQuery, ShippingAddress, ShippingName,
};

#[test]
fn currency_ron() {
    assert!(Currency::parse("ron").is_ok());
}

#[test]
fn currency_usd() {
    assert!(Currency::parse("USD").is_ok());
}

#[test]
fn currency_eur() {
    assert!(Currency::parse("eur").is_ok());
}

#[test]
fn currency_invalid() {
    assert!(Currency::parse("gbp").is_err());
}

#[test]
fn currency_display() {
    assert_eq!(Currency::Ron.to_text(), "RON");
}

#[test]
fn currency_parse_values_and_refusal() {
    assert_eq!(Currency::parse("rOn"), Ok(Currency::Ron));
    assert_eq!(Currency::parse("Usd"), Ok(Currency::Usd));
    assert_eq!(Currency::parse("EUR"), Ok(Currency::Eur));
    assert_eq!(
        Currency::parse("gbp"),
        Err(InputError::InvalidCurrency("Valută nerecunoscută: gbp".to_string()))
    );
    assert_eq!(Currency::Usd.as_str(), "USD");
    assert_eq!(Currency::Eur.to_text(), "EUR");
    for c in [Currency::Ron, Currency::Usd, Currency::Eur] {
        assert_eq!(Currency::parse(c.as_str()), Ok(c));
    }
}

#[test]
fn session_id_parse_valid() {
    let id = SessionId::parse("550e8400-e29b-41d4-a716-446655440000");
    assert!(id.is_ok());
}

#[test]
fn session_id_parse_invalid() {
    assert!(SessionId::parse("nu-e-uuid").is_err());
}

#[test]
fn session_id_empty() {
    assert!(SessionId::parse("").is_err());
}

#[test]
fn uuid_ids_carry_the_parsed_value() {
    let expected = 0x550e8400_e29b_41d4_a716_446655440000u128;
    assert_eq!(
        SessionId::parse("550e8400-e29b-41d4-a716-446655440000"),
        Ok(SessionId(expected))
    );
    assert_eq!(
        UserId::parse(" 550E8400-E29B-41D4-A716-446655440000 "),
        Ok(UserId(expected))
    );
    assert_eq!(OrderId::parse("x"), Err(InputError::InvalidOrderId));
    assert_eq!(UserId::parse(""), Err(InputError::InvalidUserId));
    let id = OrderId::parse("550e8400-e29b-41d4-a716-446655440000").unwrap();
    assert_eq!(id.as_uuid().to_string(), "550e8400-e29b-41d4-a716-446655440000");
}

#[test]
fn fresh_ids_render_and_parse_back() {
    let id = SessionId::new();
    let text = id.as_uuid().to_string();
    assert_eq!(SessionId::parse(&text), Ok(id));
    assert_ne!(UserId::new(), UserId::new());
}

#[test]
fn fresh_ids_are_version_four_with_the_rfc_variant() {
    for v in [SessionId::new().0, UserId::new().0, OrderId::new().0] {
        assert_eq!((v >> 76) & 0xF, 4);
        assert_eq!((v >> 62) & 0x3, 2);
    }
    assert_eq!(SessionId::new().as_uuid().get_version_num(), 4);
}

#[test]
fn numeric_ids() {
    assert_eq!(ProductId::new(5).unwrap().get(), 5);
    assert_eq!(ProductId::new(0), Err(InputError::InvalidProductId));
    assert_eq!(ProductId::parse(" 42 ").unwrap().get(), 42);
    assert_eq!(ProductId::parse("-3"), Err(InputError::InvalidProductId));
    assert_eq!(ProductId::parse("abc"), Err(InputError::InvalidProductId));
    assert_eq!(CategoryId::new(-1), Err(InputError::InvalidCategoryId));
    assert_eq!(CategoryId::parse("7").unwrap().get(), 7);
    assert_eq!(CategoryId::parse("99999999999"), Err(InputError::InvalidCategoryId));
}

#[test]
fn test_simple_form() {
    let fields = parse_form("name=test&qty=3");
    assert_eq!(fields.len(), 2);
    assert_eq!(get_field(&fields, "name"), Ok("test"));
    assert_eq!(get_field(&fields, "qty"), Ok("3"));
}

#[test]
fn test_url_decoded() {
    let fields = parse_form("msg=hello+world&name=Ion+Popa");
    assert_eq!(get_field(&fields, "msg"), Ok("hello world"));
    assert_eq!(get_field(&fields, "name"), Ok("Ion Popa"));
}

#[test]
fn test_empty_form() {
    let fields = parse_form("");
    assert!(fields.is_empty());
}

#[test]
fn test_missing_field() {
    let fields = parse_form("a=1");
    assert_eq!(
        get_field(&fields, "b"),
        Err(InputError::MissingField("b".to_string()))
    );
}

#[test]
fn test_parse_form_into() {
    let result = parse_form_into("x=10&y=20", |fields: &[FormField]| {
        let x = get_field(fields, "x")?;
        Ok(x.to_string())
    });
    assert_eq!(result.unwrap(), "10");
}

#[test]
fn form_pieces_and_percent_decoding() {
    let fields = parse_form("a&&b=&c=x%20y%26z&d=1=2");
    let names: Vec<&str> = fields.iter().map(|f| f.name.as_str()).collect();
    assert_eq!(names, vec!["a", "b", "c", "d"]);
    assert_eq!(get_field(&fields, "a"), Ok(""));
    assert_eq!(get_field(&fields, "c"), Ok("x y&z"));
    assert_eq!(get_field(&fields, "d"), Ok("1=2"));
    assert_eq!(url_decode("100%25+sure"), "100% sure");
    assert_eq!(url_decode("%zz"), "%zz");
    let dup = parse_form("k=1&k=2");
    assert_eq!(get_field(&dup, "k"), Ok("1"));
}

#[test]
fn any_body_reads_json_objects() {
    let r = parse_any_into(r#"{"x":"10","n":5}"#, |fields: &[FormField]| {
        Ok((get_field(fields, "x")?.to_string(), get_field(fields, "n")?.to_string()))
    });
    assert_eq!(r, Ok(("10".to_string(), "".to_string())));
    let form = parse_any_into("x=3", |fields: &[FormField]| Ok(get_field(fields, "x")?.to_string()));
    assert_eq!(form, Ok("3".to_string()));
    let broken = parse_any_into("{x=3", |fields: &[FormField]| Ok(get_field(fields, "{x")?.to_string()));
    assert_eq!(broken, Ok("3".to_string()));
}

#[test]
fn phone_rejects_empty() {
    assert!(PhoneNumber::parse("").is_err());
}

#[test]
fn phone_rejects_short() {
    assert!(PhoneNumber::parse("0722").is_err());
}

#[test]
fn phone_rejects_no_prefix() {
    assert!(PhoneNumber::parse("722123456").is_err());
}

#[test]
fn phone_accepts_valid() {
    assert!(PhoneNumber::parse("0722123456").is_ok());
}

#[test]
fn phone_strips_nondigits() {
    assert!(PhoneNumber::parse("0712 345 678").is_ok());
}

#[test]
fn phone_messages_and_digits() {
    assert_eq!(PhoneNumber::parse("0712 345 678").unwrap().as_str(), "0712345678");
    assert_eq!(
        PhoneNumber::parse("  "),
        Err(InputError::InvalidPhone("Telefonul nu poate fi gol".to_string()))
    );
    assert_eq!(
        PhoneNumber::parse("0722"),
        Err(InputError::InvalidPhone("Telefonul trebuie să aibă 10 cifre (are 4)".to_string()))
    );
    assert_eq!(
        PhoneNumber::parse("7221234567"),
        Err(InputError::InvalidPhone("Telefonul trebuie să înceapă cu 0".to_string()))
    );
}

#[test]
fn qty_rejects_zero() {
    assert!(Quantity::new(0).is_err());
}

#[test]
fn qty_rejects_negative() {
    assert!(Quantity::new(-1).is_err());
}

#[test]
fn qty_accepts_valid() {
    assert!(Quantity::new(5).is_ok());
}

#[test]
fn qty_rejects_too_large() {
    assert!(Quantity::new(1000).is_err());
}

#[test]
fn qty_bounds_and_messages() {
    assert_eq!(Quantity::new(1).unwrap().get(), 1);
    assert_eq!(Quantity::new(999).unwrap().get(), 999);
    assert_eq!(
        Quantity::new(0),
        Err(InputError::InvalidQuantity("Cantitatea trebuie să fie strict pozitivă".to_string()))
    );
    assert_eq!(
        Quantity::new(1000),
        Err(InputError::InvalidQuantity("Cantitatea maximă e 999".to_string()))
    );
}

#[test]
fn name_valid() {
    assert!(ShippingName::parse("Ion Popescu").is_ok());
}

#[test]
fn name_empty() {
    assert!(ShippingName::parse("").is_err());
}

#[test]
fn name_too_long() {
    let long = "a".repeat(201);
    assert!(ShippingName::parse(&long).is_err());
}

#[test]
fn brand_valid() {
    assert!(Brand::parse("Samsung").is_ok());
}

#[test]
fn product_name_valid() {
    assert!(ProductName::parse("Telefon Samsung Galaxy").is_ok());
}

#[test]
fn bounded_texts_trim_and_limit() {
    assert_eq!(ShippingName::parse("  Ion  ").unwrap().as_str(), "Ion");
    assert_eq!(ShippingName::parse(&"a".repeat(200)).unwrap().as_str().len(), 200);
    assert_eq!(ShippingName::parse("   "), Err(InputError::EmptyName));
    assert_eq!(ShippingName::parse(&"a".repeat(201)), Err(InputError::NameTooLong));
    assert_eq!(ShippingAddress::parse(""), Err(InputError::EmptyAddress));
    assert_eq!(ShippingAddress::parse(&"b".repeat(501)), Err(InputError::AddressTooLong));
    assert_eq!(Notes::parse(&"n".repeat(2001)), Err(InputError::NotesTooLong));
    assert_eq!(Notes::parse(" x ").unwrap().as_str(), "x");
    assert_eq!(Brand::parse(""), Err(InputError::EmptyBrand));
    assert_eq!(Brand::parse(&"b".repeat(101)), Err(InputError::BrandTooLong));
    assert_eq!(ProductName::parse(" "), Err(InputError::EmptyProductName));
    assert_eq!(ProductName::parse(&"p".repeat(201)), Err(InputError::ProductNameTooLong));
    assert_eq!(SearchQuery::parse(&"q".repeat(201)), Err(InputError::SearchQueryTooLong));
    assert_eq!(SearchQuery::parse(" laptop ").unwrap().as_str(), "laptop");
    // byte length counts, not characters: 101 two-byte letters are 202 bytes
    assert_eq!(ShippingName::parse(&"ă".repeat(101)), Err(InputError::NameTooLong));
}

#[test]
fn factory_delegates() {
    assert_eq!(InputFactory::parse_qty(3).unwrap().get(), 3);
    assert!(InputFactory::parse_phone("0722123456").is_ok());
    assert!(InputFactory::parse_session_id("550e8400-e29b-41d4-a716-446655440000").is_ok());
    assert_eq!(InputFactory::parse_user_id("no"), Err(InputError::InvalidUserId));
    assert_eq!(InputFactory::parse_order_id("no"), Err(InputError::InvalidOrderId));
    assert_eq!(InputFactory::parse_product_id(0), Err(InputError::InvalidProductId));
    assert_eq!(InputFactory::parse_category_id(4).unwrap().get(), 4);
    assert_eq!(InputFactory::parse_name("A").unwrap().as_str(), "A");
    assert_eq!(InputFactory::parse_address("Str. X").unwrap().as_str(), "Str. X");
    assert_eq!(InputFactory::parse_notes("n").unwrap().as_str(), "n");
    assert_eq!(InputFactory::parse_brand("B").unwrap().as_str(), "B");
    assert_eq!(InputFactory::parse_product_name("P").unwrap().as_str(), "P");
    assert_eq!(InputFactory::parse_search("s").unwrap().as_str(), "s");
    assert_eq!(InputFactory::parse_currency("eur"), Ok(Currency::Eur));
}

#[test]
fn query_validator_defaults() {
    assert_eq!(QueryValidator::page(Some(3), 1), 3);
    assert_eq!(QueryValidator::page(Some(0), 1), 1);
    assert_eq!(QueryValidator::page(None, 2), 2);
    assert!(QueryValidator::uuid(Some("550e8400-e29b-41d4-a716-446655440000".to_string()), "id").is_some());
    assert!(QueryValidator::uuid(Some("bad".to_string()), "id").is_none());
    assert_eq!(
        QueryValidator::token(Some("a.b.c".to_string()), "t"),
        Some("a.b.c".to_string())
    );
    assert_eq!(QueryValidator::token(Some("a.b".to_string()), "t"), None);
    assert_eq!(QueryValidator::session_id(Some("s".repeat(257)), "s"), None);
    assert_eq!(QueryValidator::session_id(Some("s".to_string()), "s"), Some("s".to_string()));
    assert_eq!(QueryValidator::header(Some("a\tb".to_string()), "h", 10), None);
    assert_eq!(QueryValidator::header(Some("a b".to_string()), "h", 10), Some("a b".to_string()));
    assert_eq!(QueryValidator::header(Some("a\nb".to_string()), "h", 10), None);
    assert_eq!(QueryValidator::header(Some("abcdef".to_string()), "h", 3), None);
}

#[test]
fn input_error_messages() {
    assert_eq!(InputError::EmptyEmail.message(), "Email-ul nu poate fi gol");
    assert_eq!(
        InputError::MissingField("b".to_string()).message(),
        "Cîmpul 'b' lipsește"
    );
    assert_eq!(InputError::NameTooLong.message(), "Numele e prea lung (max 200)");
    assert_eq!(
        InputError::InvalidCurrency("x".to_string()).message(),
        "Valută invalidă: x"
    );
    assert_eq!(InputError::Custom("c".to_string()).message(), "c");
}
