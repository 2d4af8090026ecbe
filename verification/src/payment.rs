//! Payments: the checkout request and response, the mock provider, and the
//! decisions of the Stripe provider (what to send, and what each reply means).
use vstd::prelude::*;
use vstd::string::StringExecFns;
use vstd::utf8::{decode_utf8, encode_utf8, is_char_boundary};
use crate::input_types::parser::{json_reading, read_json};
use crate::text::{concat2, str_eq, to_owned_string};

verus! {

/// Why a payment operation failed.
#[derive(Debug, Clone, PartialEq)]
pub enum PaymentError {
    /// The provider refused or could not be reached (its message).
    Stripe(String),
    /// The amount is not positive.
    InvalidAmount,
    /// No API key is configured.
    MissingApiKey,
    /// The refund failed (its message).
    RefundFailed(String),
}

/// The message of a payment error, as its display shows it.
pub open spec fn payment_error_text(e: PaymentError) -> Seq<char> {
    match e {
        PaymentError::Stripe(m) => "Stripe error: "@ + m@,
        PaymentError::InvalidAmount => "Invalid amount"@,
        PaymentError::MissingApiKey => "Missing API key"@,
        PaymentError::RefundFailed(m) => "Refund failed: "@ + m@,
    }
}

impl PaymentError {
    /// The message shown for this error.
    pub fn message(&self) -> (r: String)
        ensures
            r@ == payment_error_text(*self),
    {
        match self {
            PaymentError::Stripe(m) => concat2("Stripe error: ", m.as_str()),
            PaymentError::InvalidAmount => String::from_str("Invalid amount"),
            PaymentError::MissingApiKey => String::from_str("Missing API key"),
            PaymentError::RefundFailed(m) => concat2("Refund failed: ", m.as_str()),
        }
    }
}

/// A checkout session to create.
#[derive(Debug, Clone)]
pub struct CreateCheckoutRequest {
    /// The order's id in this system.
    pub order_id: String,
    /// The amount, in bani (cents).
    pub amount_bani: i64,
    /// The currency (such as `ron`).
    pub currency: String,
    /// Where the buyer goes after paying.
    pub success_url: String,
    /// Where the buyer goes after cancelling.
    pub cancel_url: String,
}

/// A created checkout session.
#[derive(Debug, Clone)]
pub struct CheckoutResponse {
    /// Where to send the buyer.
    pub checkout_url: String,
    /// The provider's id of the session.
    pub session_id: String,
}

/// The mock provider: payment succeeds at once (development).
pub struct MockPayment;

impl MockPayment {
    /// The mock provider.
    pub fn new() -> (r: Self) {
        MockPayment
    }

    /// A checkout that is paid at once: a non-positive amount is refused;
    /// otherwise the buyer goes straight to the success URL, and the session is
    /// `mock_` and the order's id.
    pub fn create_checkout(&self, req: CreateCheckoutRequest) -> (r: Result<CheckoutResponse, PaymentError>)
        ensures
            req.amount_bani <= 0 ==> r == Err::<CheckoutResponse, PaymentError>(PaymentError::InvalidAmount),
            req.amount_bani > 0 ==> (r matches Ok(c) && c.checkout_url@ == req.success_url@
                && c.session_id@ == "mock_"@ + req.order_id@),
    {
        if req.amount_bani <= 0 {
            return Err(PaymentError::InvalidAmount);
        }
        let session_id = concat2("mock_", req.order_id.as_str());
        Ok(CheckoutResponse { checkout_url: req.success_url, session_id })
    }

    /// A refund always succeeds.
    pub fn refund_payment(&self, payment_provider_id: &str) -> (r: Result<(), PaymentError>)
        ensures
            r is Ok,
    {
        Ok(())
    }
}

/// An HTTP call to the provider, as plain values: the form fields are sent
/// `application/x-www-form-urlencoded` (a `GET` sends none).
#[derive(Debug, Clone)]
pub struct ProviderCall {
    /// `true` for `POST`, `false` for `GET`.
    pub post: bool,
    pub url: String,
    /// The `Authorization` header.
    pub authorization: String,
    pub form: Vec<(String, String)>,
}

/// The plain values of a list of string pairs.
pub open spec fn form_view(v: Seq<(String, String)>) -> Seq<(Seq<char>, Seq<char>)> {
    v.map_values(|e: (String, String)| (e.0@, e.1@))
}

/// The Stripe provider.
pub struct StripePayment {
    secret_key: String,
}

/// The number of bytes of the order id that name the product.
pub open spec fn name_bytes(order_id: Seq<char>) -> int {
    if encode_utf8(order_id).len() < 8 {
        encode_utf8(order_id).len() as int
    } else {
        8
    }
}

/// The product name of a checkout: `Comanda #` and the first 8 bytes of the
/// order id (all of it when shorter).
pub open spec fn product_name(order_id: Seq<char>) -> Seq<char> {
    "Comanda #"@ + decode_utf8(encode_utf8(order_id).subrange(0, name_bytes(order_id)))
}

/// The form of a checkout session.
pub open spec fn checkout_form(req: CreateCheckoutRequest, unit_amount: Seq<char>) -> Seq<(Seq<char>, Seq<char>)> {
    seq![
        ("mode"@, "payment"@),
        ("success_url"@, req.success_url@),
        ("cancel_url"@, req.cancel_url@),
        ("line_items[0][price_data][currency]"@, req.currency@),
        ("line_items[0][price_data][product_data][name]"@, product_name(req.order_id@)),
        ("line_items[0][price_data][unit_amount]"@, unit_amount),
        ("line_items[0][quantity]"@, "1"@),
        ("metadata[order_id]"@, req.order_id@),
    ]
}

/// The text of the member `key` of a JSON object, when it is a string.
pub open spec fn member_text(ms: Seq<(Seq<char>, Option<Seq<char>>)>, key: Seq<char>) -> Option<Seq<char>>
    decreases ms.len(),
{
    if ms.len() == 0 {
        None
    } else if ms.last().0 == key {
        ms.last().1
    } else {
        member_text(ms.drop_last(), key)
    }
}

/// The string member `key` of a JSON reply, if the reply is an object that has one.
pub open spec fn reply_text(body: Seq<char>, key: Seq<char>) -> Option<Seq<char>> {
    match json_reading(body) {
        Ok((_, Some(ms))) => member_text(ms, key),
        _ => None,
    }
}

/// Finds the string member `key` in the members of a JSON object.
fn find_member(ms: &Vec<(String, Option<String>)>, key: &str) -> (r: Option<String>)
    ensures
        r.deep_view() == member_text(ms.deep_view(), key@),
{
    let ghost dv = ms.deep_view();
    let mut i: usize = ms.len();
    assert(dv.subrange(0, dv.len() as int) =~= dv);
    while i > 0
        invariant
            i <= ms.len(),
            dv == ms.deep_view(),
            dv.len() == ms.len(),
            member_text(dv, key@) == member_text(dv.subrange(0, i as int), key@),
        decreases i,
    {
        let ghost pre = dv.subrange(0, i as int);
        proof {
            assert(pre.drop_last() =~= dv.subrange(0, i - 1));
            assert(pre.last() == dv[i - 1]);
            assert(dv[i - 1] == ms@[i - 1].deep_view());
        }
        if str_eq(ms[i - 1].0.as_str(), key) {
            return match &ms[i - 1].1 {
                Some(t) => Some(to_owned_string(t.as_str())),
                None => None,
            };
        }
        i -= 1;
    }
    None
}

/// The string member `key` of a JSON reply.
fn reply_member(body: &str, key: &str) -> (r: Option<String>)
    ensures
        r.deep_view() == reply_text(body@, key@),
{
    match read_json(body) {
        Ok((_, Some(ms))) => find_member(&ms, key),
        _ => None,
    }
}

/// The message reqwest gives for a reply body that does not decode.
pub open spec fn decode_failure_text() -> Seq<char> {
    "error decoding response body"@
}

impl StripePayment {
    /// The provider with its secret key.
    pub fn new(secret_key: &str) -> (r: Self)
        ensures
            r.key() == secret_key@,
    {
        StripePayment { secret_key: to_owned_string(secret_key) }
    }

    /// The secret key.
    pub closed spec fn key(&self) -> Seq<char> {
        self.secret_key@
    }

    /// The `Authorization` header for the secret key.
    fn bearer(&self) -> (r: String)
        ensures
            r@ == "Bearer "@ + self.key(),
    {
        concat2("Bearer ", self.secret_key.as_str())
    }

    /// The call that creates a checkout session: a non-positive amount is
    /// refused, then a missing key; otherwise a `POST` of the session's form
    /// (see `checkout_form`) to Stripe's checkout sessions.
    pub fn checkout_call(&self, req: &CreateCheckoutRequest) -> (r: Result<ProviderCall, PaymentError>)
        requires
            req.amount_bani > 0 && self.key().len() > 0 ==> is_char_boundary(
                encode_utf8(req.order_id@),
                name_bytes(req.order_id@),
            ),
        ensures
            req.amount_bani <= 0 ==> r == Err::<ProviderCall, PaymentError>(PaymentError::InvalidAmount),
            req.amount_bani > 0 && self.key().len() == 0 ==> r == Err::<ProviderCall, PaymentError>(
                PaymentError::MissingApiKey,
            ),
            req.amount_bani > 0 && self.key().len() > 0 ==> (r matches Ok(c) && c.post
                && c.url@ == "https://api.stripe.com/v1/checkout/sessions"@
                && c.authorization@ == "Bearer "@ + self.key()
                && form_view(c.form@) == checkout_form(*req, crate::text::decimal(req.amount_bani as int))),
    {
        if req.amount_bani <= 0 {
            return Err(PaymentError::InvalidAmount);
        }
        if self.secret_key.as_str().is_empty() {
            return Err(PaymentError::MissingApiKey);
        }
        let order_id = req.order_id.as_str();
        let n = order_id.as_bytes().len();
        let m: usize = if n < 8 { n } else { 8 };
        let (head, _) = order_id.split_at(m);
        proof {
            vstd::utf8::encode_utf8_decode_utf8(head@);
        }
        let name = concat2("Comanda #", head);
        let unit_amount = crate::text::i64_to_decimal(req.amount_bani);
        let mut form: Vec<(String, String)> = Vec::new();
        form.push((String::from_str("mode"), String::from_str("payment")));
        form.push((String::from_str("success_url"), req.success_url.clone()));
        form.push((String::from_str("cancel_url"), req.cancel_url.clone()));
        form.push(
            (String::from_str("line_items[0][price_data][currency]"), req.currency.clone()),
        );
        form.push((String::from_str("line_items[0][price_data][product_data][name]"), name));
        form.push((String::from_str("line_items[0][price_data][unit_amount]"), unit_amount));
        form.push((String::from_str("line_items[0][quantity]"), String::from_str("1")));
        form.push((String::from_str("metadata[order_id]"), req.order_id.clone()));
        assert(form_view(form@) =~= checkout_form(*req, crate::text::decimal(req.amount_bani as int)));
        Ok(
            ProviderCall {
                post: true,
                url: String::from_str("https://api.stripe.com/v1/checkout/sessions"),
                authorization: self.bearer(),
                form,
            },
        )
    }

    /// What a reply to the checkout call means: a status other than success
    /// is an error with the reply's text; otherwise the reply must be JSON with
    /// the string members `url` and `id`.
    pub fn checkout_reply(success: bool, body: &str) -> (r: Result<CheckoutResponse, PaymentError>)
        ensures
            !success ==> (r matches Err(PaymentError::Stripe(m)) && m@ == "Stripe API error: "@ + body@),
            success && json_reading(body@) is Err ==> (r matches Err(PaymentError::Stripe(m))
                && m@ == decode_failure_text()),
            success && json_reading(body@) is Ok && reply_text(body@, "url"@) is None ==> (r matches Err(
                PaymentError::Stripe(m),
            ) && m@ == "Missing checkout URL"@),
            success && json_reading(body@) is Ok && reply_text(body@, "url"@) is Some && reply_text(
                body@,
                "id"@,
            ) is None ==> (r matches Err(PaymentError::Stripe(m)) && m@ == "Missing session ID"@),
            success && reply_text(body@, "url"@) is Some && reply_text(body@, "id"@) is Some ==> (r matches Ok(
                c,
            ) && c.checkout_url@ == reply_text(body@, "url"@)->Some_0 && c.session_id@ == reply_text(
                body@,
                "id"@,
            )->Some_0),
    {
        if !success {
            return Err(PaymentError::Stripe(concat2("Stripe API error: ", body)));
        }
        match read_json(body) {
            Err(_) => {
                return Err(PaymentError::Stripe(String::from_str("error decoding response body")));
            },
            Ok(_) => {},
        }
        let url = match reply_member(body, "url") {
            Some(u) => u,
            None => {
                return Err(PaymentError::Stripe(String::from_str("Missing checkout URL")));
            },
        };
        let id = match reply_member(body, "id") {
            Some(i) => i,
            None => {
                return Err(PaymentError::Stripe(String::from_str("Missing session ID")));
            },
        };
        Ok(CheckoutResponse { checkout_url: url, session_id: id })
    }

    /// The first call of a refund: with a key, a `GET` of the checkout session.
    pub fn refund_session_call(&self, session_id: &str) -> (r: Result<ProviderCall, PaymentError>)
        ensures
            self.key().len() == 0 ==> r == Err::<ProviderCall, PaymentError>(PaymentError::MissingApiKey),
            self.key().len() > 0 ==> (r matches Ok(c) && !c.post
                && c.url@ == "https://api.stripe.com/v1/checkout/sessions/"@ + session_id@
                && c.authorization@ == "Bearer "@ + self.key() && c.form@.len() == 0),
    {
        if self.secret_key.as_str().is_empty() {
            return Err(PaymentError::MissingApiKey);
        }
        Ok(
            ProviderCall {
                post: false,
                url: concat2("https://api.stripe.com/v1/checkout/sessions/", session_id),
                authorization: self.bearer(),
                form: Vec::new(),
            },
        )
    }

    /// What the session reply of a refund means: a failure is an error with
    /// its text; otherwise the session's string member `payment_intent` is
    /// refunded by a `POST` to Stripe's refunds.
    pub fn refund_session_reply(&self, success: bool, body: &str) -> (r: Result<ProviderCall, PaymentError>)
        ensures
            !success ==> (r matches Err(PaymentError::Stripe(m)) && m@ == "Failed to retrieve session: "@
                + body@),
            success && json_reading(body@) is Err ==> (r matches Err(PaymentError::Stripe(m))
                && m@ == decode_failure_text()),
            success && json_reading(body@) is Ok && reply_text(body@, "payment_intent"@) is None ==> (r matches Err(
                PaymentError::Stripe(m),
            ) && m@ == "No payment_intent in session (not paid yet?)"@),
            success && reply_text(body@, "payment_intent"@) is Some ==> (r matches Ok(c) && c.post
                && c.url@ == "https://api.stripe.com/v1/refunds"@ && c.authorization@ == "Bearer "@
                + self.key() && form_view(c.form@) == seq![
                ("payment_intent"@, reply_text(body@, "payment_intent"@)->Some_0),
            ]),
    {
        if !success {
            return Err(PaymentError::Stripe(concat2("Failed to retrieve session: ", body)));
        }
        match read_json(body) {
            Err(_) => {
                return Err(PaymentError::Stripe(String::from_str("error decoding response body")));
            },
            Ok(_) => {},
        }
        let intent = match reply_member(body, "payment_intent") {
            Some(p) => p,
            None => {
                return Err(
                    PaymentError::Stripe(
                        String::from_str("No payment_intent in session (not paid yet?)"),
                    ),
                );
            },
        };
        let mut form: Vec<(String, String)> = Vec::new();
        form.push((String::from_str("payment_intent"), intent));
        assert(form_view(form@) =~= seq![
            ("payment_intent"@, reply_text(body@, "payment_intent"@)->Some_0),
        ]);
        Ok(
            ProviderCall {
                post: true,
                url: String::from_str("https://api.stripe.com/v1/refunds"),
                authorization: self.bearer(),
                form,
            },
        )
    }

    /// What the refund reply means: a failure is a refund error with its text.
    pub fn refund_reply(success: bool, body: &str) -> (r: Result<(), PaymentError>)
        ensures
            success ==> r is Ok,
            !success ==> (r matches Err(PaymentError::RefundFailed(m)) && m@ == "Stripe refund error: "@
                + body@),
    {
        if success {
            Ok(())
        } else {
            Err(PaymentError::RefundFailed(concat2("Stripe refund error: ", body)))
        }
    }
}

} // verus!
