use marketplace_kit::payment::{
    CheckoutResponse, CreateCheckoutRequest, MockPayment, PaymentError, StripePayment,
};

fn request(amount: i64, order_id: &str) -> CreateCheckoutRequest {
    CreateCheckoutRequest {
        order_id: order_id.into(),
        amount_bani: amount,
        currency: "ron".into(),
        success_url: "https://example.com/success".into(),
        cancel_url: "https://example.com/cancel".into(),
    }
}

#[test]
fn test_checkout_request() {
    let req = CreateCheckoutRequest {
        order_id: "order-123".into(),
        amount_bani: 10000,
        currency: "ron".into(),
        success_url: "https://example.com/success".into(),
        cancel_url: "https://example.com/cancel".into(),
    };
    assert_eq!(req.amount_bani, 10000);
    assert_eq!(req.currency, "ron");
}

#[test]
fn test_checkout_response() {
    let resp = CheckoutResponse {
        checkout_url: "https://checkout.stripe.com/session_123".into(),
        session_id: "session_123".into(),
    };
    assert!(resp.checkout_url.contains("stripe.com"));
}

#[test]
fn test_payment_errors() {
    let err = PaymentError::InvalidAmount;
    assert_eq!(err.message(), "Invalid amount");
}

#[test]
fn payment_error_messages() {
    assert_eq!(PaymentError::Stripe("x".into()).message(), "Stripe error: x");
    assert_eq!(PaymentError::MissingApiKey.message(), "Missing API key");
    assert_eq!(PaymentError::RefundFailed("y".into()).message(), "Refund failed: y");
}

#[test]
fn mock_payment_pays_at_once() {
    let mock = MockPayment::new();
    let r = mock.create_checkout(request(500, "abc")).unwrap();
    assert_eq!(r.checkout_url, "https://example.com/success");
    assert_eq!(r.session_id, "mock_abc");
    assert_eq!(mock.create_checkout(request(0, "abc")).unwrap_err(), PaymentError::InvalidAmount);
    assert!(mock.refund_payment("anything").is_ok());
}

#[test]
fn stripe_checkout_call() {
    let stripe = StripePayment::new("sk_test");
    let call = stripe.checkout_call(&request(10000, "order-123456789")).unwrap();
    assert!(call.post);
    assert_eq!(call.url, "https://api.stripe.com/v1/checkout/sessions");
    assert_eq!(call.authorization, "Bearer sk_test");
    let get = |k: &str| call.form.iter().find(|(n, _)| n == k).map(|(_, v)| v.clone());
    assert_eq!(get("mode").as_deref(), Some("payment"));
    assert_eq!(get("line_items[0][price_data][product_data][name]").as_deref(), Some("Comanda #order-12"));
    assert_eq!(get("line_items[0][price_data][unit_amount]").as_deref(), Some("10000"));
    assert_eq!(get("line_items[0][quantity]").as_deref(), Some("1"));
    assert_eq!(get("metadata[order_id]").as_deref(), Some("order-123456789"));
    assert_eq!(get("line_items[0][price_data][currency]").as_deref(), Some("ron"));
    assert_eq!(call.form.len(), 8);

    let short = stripe.checkout_call(&request(1, "ab")).unwrap();
    let name = short.form.iter().find(|(n, _)| n == "line_items[0][price_data][product_data][name]").unwrap();
    assert_eq!(name.1, "Comanda #ab");

    assert_eq!(stripe.checkout_call(&request(0, "x")).unwrap_err(), PaymentError::InvalidAmount);
    let no_key = StripePayment::new("");
    assert_eq!(no_key.checkout_call(&request(5, "x")).unwrap_err(), PaymentError::MissingApiKey);
    assert_eq!(no_key.checkout_call(&request(-5, "x")).unwrap_err(), PaymentError::InvalidAmount);
}

#[test]
fn stripe_checkout_reply() {
    let ok = StripePayment::checkout_reply(true, r#"{"id":"cs_1","url":"https://pay/cs_1"}"#).unwrap();
    assert_eq!(ok.session_id, "cs_1");
    assert_eq!(ok.checkout_url, "https://pay/cs_1");
    assert_eq!(
        StripePayment::checkout_reply(false, "denied").unwrap_err(),
        PaymentError::Stripe("Stripe API error: denied".into())
    );
    assert_eq!(
        StripePayment::checkout_reply(true, "not json").unwrap_err(),
        PaymentError::Stripe("error decoding response body".into())
    );
    assert_eq!(
        StripePayment::checkout_reply(true, r#"{"id":"cs_1"}"#).unwrap_err(),
        PaymentError::Stripe("Missing checkout URL".into())
    );
    assert_eq!(
        StripePayment::checkout_reply(true, r#"{"url":"u","id":5}"#).unwrap_err(),
        PaymentError::Stripe("Missing session ID".into())
    );
    assert_eq!(
        StripePayment::checkout_reply(true, "[1,2]").unwrap_err(),
        PaymentError::Stripe("Missing checkout URL".into())
    );
}

#[test]
fn stripe_refund_calls() {
    let stripe = StripePayment::new("sk");
    let first = stripe.refund_session_call("cs_9").unwrap();
    assert!(!first.post);
    assert_eq!(first.url, "https://api.stripe.com/v1/checkout/sessions/cs_9");
    assert_eq!(first.authorization, "Bearer sk");
    assert!(first.form.is_empty());
    assert_eq!(
        StripePayment::new("").refund_session_call("cs_9").unwrap_err(),
        PaymentError::MissingApiKey
    );

    let second = stripe.refund_session_reply(true, r#"{"payment_intent":"pi_7"}"#).unwrap();
    assert!(second.post);
    assert_eq!(second.url, "https://api.stripe.com/v1/refunds");
    assert_eq!(second.form, vec![("payment_intent".to_string(), "pi_7".to_string())]);
    assert_eq!(
        stripe.refund_session_reply(true, r#"{"payment_intent":null}"#).unwrap_err(),
        PaymentError::Stripe("No payment_intent in session (not paid yet?)".into())
    );
    assert_eq!(
        stripe.refund_session_reply(false, "gone").unwrap_err(),
        PaymentError::Stripe("Failed to retrieve session: gone".into())
    );
    assert_eq!(
        stripe.refund_session_reply(true, "{").unwrap_err(),
        PaymentError::Stripe("error decoding response body".into())
    );
    assert!(StripePayment::refund_reply(true, "").is_ok());
    assert_eq!(
        StripePayment::refund_reply(false, "no").unwrap_err(),
        PaymentError::RefundFailed("Stripe refund error: no".into())
    );
}
