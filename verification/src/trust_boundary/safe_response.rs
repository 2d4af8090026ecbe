//! `SafeResponse`: the only way out to the browser; every response carries the
//! security headers.
use vstd::prelude::*;
use vstd::string::StringExecFns;
use crate::text::{ascii_lower, concat2, concat3, decimal, i64_to_decimal, opt_string_view, to_owned_string};
use crate::trust_boundary::http_response::{
    build_response, header_map_of, header_name_valid, header_value_valid, headers_valid, lemma_absent_key, lemma_header_map_grows, lemma_header_map_size, response_header_map,
    sent_as, HeaderContents,
};

verus! {

/// A status the application answers with.
#[derive(Debug, Clone, Copy, PartialEq, Eq, Structural)]
pub enum SafeStatus {
    Success,
    Redirect,
    BadRequest,
    Unauthorized,
    Forbidden,
    NotFound,
    TooManyRequests,
    ServerError,
}

/// The HTTP status code of a status.
pub open spec fn status_code(s: SafeStatus) -> u16 {
    match s {
        SafeStatus::Success => 200,
        SafeStatus::Redirect => 302,
        SafeStatus::BadRequest => 400,
        SafeStatus::Unauthorized => 401,
        SafeStatus::Forbidden => 403,
        SafeStatus::NotFound => 404,
        SafeStatus::TooManyRequests => 429,
        SafeStatus::ServerError => 500,
    }
}

impl SafeStatus {
    /// The HTTP status code (200, 302, 400, 401, 403, 404, 429 or 500).
    pub fn code(&self) -> (c: u16)
        ensures
            c == status_code(*self),
    {
        match self {
            SafeStatus::Success => 200,
            SafeStatus::Redirect => 302,
            SafeStatus::BadRequest => 400,
            SafeStatus::Unauthorized => 401,
            SafeStatus::Forbidden => 403,
            SafeStatus::NotFound => 404,
            SafeStatus::TooManyRequests => 429,
            SafeStatus::ServerError => 500,
        }
    }
}

/// A response as plain values.
pub struct ResponseModel {
    pub status: SafeStatus,
    pub body: Seq<char>,
    pub content_type: Seq<char>,
    pub location: Option<Seq<char>>,
    pub set_cookies: Seq<(Seq<char>, Seq<char>, int)>,
    pub remove_cookies: Seq<Seq<char>>,
    pub extra_headers: Seq<(Seq<char>, Seq<char>)>,
}

/// A response on its way to the browser.
#[derive(Debug, Clone)]
pub struct SafeResponse {
    /// The status.
    pub status: SafeStatus,
    /// The body (HTML, JSON or text).
    pub body: String,
    /// The `Content-Type`.
    pub content_type: String,
    /// Where a redirect goes.
    pub location: Option<String>,
    /// Cookies to set: name, value, max age in seconds.
    pub set_cookies: Vec<(String, String, i64)>,
    /// Cookies to remove, by name.
    pub remove_cookies: Vec<String>,
    /// Further headers.
    pub extra_headers: Vec<(String, String)>,
}

/// The plain values of cookie settings.
pub open spec fn cookie_settings_view(v: Seq<(String, String, i64)>) -> Seq<(Seq<char>, Seq<char>, int)> {
    v.map_values(|c: (String, String, i64)| (c.0@, c.1@, c.2 as int))
}

/// The plain values of a list of strings.
pub open spec fn strings_view(v: Seq<String>) -> Seq<Seq<char>> {
    v.map_values(|s: String| s@)
}

/// The plain values of a list of string pairs.
pub open spec fn string_pairs_view(v: Seq<(String, String)>) -> Seq<(Seq<char>, Seq<char>)> {
    v.map_values(|e: (String, String)| (e.0@, e.1@))
}

impl View for SafeResponse {
    type V = ResponseModel;

    open spec fn view(&self) -> ResponseModel {
        ResponseModel {
            status: self.status,
            body: self.body@,
            content_type: self.content_type@,
            location: opt_string_view(self.location),
            set_cookies: cookie_settings_view(self.set_cookies@),
            remove_cookies: strings_view(self.remove_cookies@),
            extra_headers: string_pairs_view(self.extra_headers@),
        }
    }
}

/// A response with the given status, body and content type, and nothing else.
pub open spec fn plain_model(status: SafeStatus, body: Seq<char>, content_type: Seq<char>) -> ResponseModel {
    ResponseModel {
        status,
        body,
        content_type,
        location: None,
        set_cookies: Seq::empty(),
        remove_cookies: Seq::empty(),
        extra_headers: Seq::empty(),
    }
}

/// The `Content-Security-Policy` sent with every response.
pub open spec fn csp_value() -> Seq<char> {
    "default-src 'self'; style-src 'self' 'unsafe-inline'; img-src 'self' data:; font-src 'self'"@
}

/// The security headers sent with every response, in order.
pub open spec fn security_headers() -> Seq<(Seq<char>, Seq<char>)> {
    seq![
        ("Content-Security-Policy"@, csp_value()),
        ("Strict-Transport-Security"@, "max-age=31536000; includeSubDomains"@),
        ("X-Frame-Options"@, "DENY"@),
        ("X-Content-Type-Options"@, "nosniff"@),
        ("Referrer-Policy"@, "strict-origin-when-cross-origin"@),
    ]
}

/// The `Set-Cookie` value that sets a cookie.
pub open spec fn set_cookie_text(name: Seq<char>, value: Seq<char>, max_age: int) -> Seq<char> {
    name + "="@ + value + "; HttpOnly; Path=/; SameSite=Lax; Max-Age="@ + decimal(max_age)
}

/// The `Set-Cookie` value that removes a cookie.
pub open spec fn remove_cookie_text(name: Seq<char>) -> Seq<char> {
    name + "=; HttpOnly; Path=/; SameSite=Lax; Max-Age=0"@
}

/// The `Set-Cookie` headers that set cookies.
pub open spec fn set_cookie_headers(cs: Seq<(Seq<char>, Seq<char>, int)>) -> Seq<(Seq<char>, Seq<char>)> {
    cs.map_values(|c: (Seq<char>, Seq<char>, int)| ("Set-Cookie"@, set_cookie_text(c.0, c.1, c.2)))
}

/// The `Set-Cookie` headers that remove cookies.
pub open spec fn remove_cookie_headers(ns: Seq<Seq<char>>) -> Seq<(Seq<char>, Seq<char>)> {
    ns.map_values(|n: Seq<char>| ("Set-Cookie"@, remove_cookie_text(n)))
}

/// The `Location` header of a redirect.
pub open spec fn location_headers(l: Option<Seq<char>>) -> Seq<(Seq<char>, Seq<char>)> {
    match l {
        Some(x) => seq![("Location"@, x)],
        None => Seq::empty(),
    }
}

/// The headers of a response, in order: `Content-Type`, the security headers,
/// `Location` for a redirect, a `Set-Cookie` per cookie set and per cookie
/// removed, then the further headers.
pub open spec fn response_headers(m: ResponseModel) -> Seq<(Seq<char>, Seq<char>)> {
    seq![("Content-Type"@, m.content_type)] + security_headers() + location_headers(m.location)
        + set_cookie_headers(m.set_cookies) + remove_cookie_headers(m.remove_cookies)
        + m.extra_headers
}

/// The compact JSON text of a document, as `serde_json::Value`'s `Display`
/// writes it.
pub uninterp spec fn json_display(v: serde_json::Value) -> Seq<char>;

/// Calls `serde_json::Value::to_string` (its `Display`): a function of the
/// document alone, named `json_display`.
#[verifier::external_body]
fn json_text(v: &serde_json::Value) -> (r: String)
    ensures
        r@ == json_display(*v),
{
    v.to_string()
}

fn text_plain() -> (r: String)
    ensures
        r@ == "text/plain; charset=utf-8"@,
{
    String::from_str("text/plain; charset=utf-8")
}

fn plain(status: SafeStatus, body: String, content_type: String) -> (r: SafeResponse)
    ensures
        r@ == plain_model(status, body@, content_type@),
{
    let r = SafeResponse {
        status,
        body,
        content_type,
        location: None,
        set_cookies: Vec::new(),
        remove_cookies: Vec::new(),
        extra_headers: Vec::new(),
    };
    assert(r@.set_cookies =~= Seq::<(Seq<char>, Seq<char>, int)>::empty());
    assert(r@.remove_cookies =~= Seq::<Seq<char>>::empty());
    assert(r@.extra_headers =~= Seq::<(Seq<char>, Seq<char>)>::empty());
    r
}

fn header_pair(name: &str, value: &str) -> (r: (String, String))
    ensures
        r.0@ == name@,
        r.1@ == value@,
{
    (to_owned_string(name), to_owned_string(value))
}

impl SafeResponse {
    /// A 200 HTML page.
    pub fn html(body: &str) -> (r: Self)
        ensures
            r@ == plain_model(SafeStatus::Success, body@, "text/html; charset=utf-8"@),
    {
        plain(SafeStatus::Success, to_owned_string(body), String::from_str("text/html; charset=utf-8"))
    }

    /// A 200 JSON document (the value's text is `serde_json`'s).
    pub fn json(value: &serde_json::Value) -> (r: Self)
        ensures
            r@.status == SafeStatus::Success,
            r@.content_type == "application/json; charset=utf-8"@,
            r@.location is None,
            r@.set_cookies.len() == 0,
            r@.remove_cookies.len() == 0,
            r@.extra_headers.len() == 0,
            r@.body == json_display(*value),
    {
        plain(SafeStatus::Success, json_text(value), String::from_str("application/json; charset=utf-8"))
    }

    /// A 302 redirect to `url`.
    pub fn redirect(url: &str) -> (r: Self)
        ensures
            r@ == (ResponseModel {
                location: Some(url@),
                ..plain_model(SafeStatus::Redirect, Seq::empty(), "text/plain; charset=utf-8"@)
            }),
    {
        let mut r = plain(SafeStatus::Redirect, String::new(), text_plain());
        r.location = Some(to_owned_string(url));
        r
    }

    /// A 400 with a message.
    pub fn bad_request(msg: &str) -> (r: Self)
        ensures
            r@ == plain_model(SafeStatus::BadRequest, msg@, "text/plain; charset=utf-8"@),
    {
        plain(SafeStatus::BadRequest, to_owned_string(msg), text_plain())
    }

    /// A 401 with a message.
    pub fn unauthorized(msg: &str) -> (r: Self)
        ensures
            r@ == plain_model(SafeStatus::Unauthorized, msg@, "text/plain; charset=utf-8"@),
    {
        plain(SafeStatus::Unauthorized, to_owned_string(msg), text_plain())
    }

    /// A 404.
    pub fn not_found() -> (r: Self)
        ensures
            r@ == plain_model(SafeStatus::NotFound, "Not Found"@, "text/plain; charset=utf-8"@),
    {
        plain(SafeStatus::NotFound, String::from_str("Not Found"), text_plain())
    }

    /// A 403.
    pub fn forbidden() -> (r: Self)
        ensures
            r@ == plain_model(SafeStatus::Forbidden, "Forbidden"@, "text/plain; charset=utf-8"@),
    {
        plain(SafeStatus::Forbidden, String::from_str("Forbidden"), text_plain())
    }

    /// The response that also sets the cookie `name` to `value` for `max_age` seconds.
    pub fn with_cookie(self, name: &str, value: &str, max_age: i64) -> (r: Self)
        ensures
            r@ == (ResponseModel {
                set_cookies: self@.set_cookies.push((name@, value@, max_age as int)),
                ..self@
            }),
    {
        let mut s = self;
        let ghost before = s.set_cookies@;
        s.set_cookies.push((to_owned_string(name), to_owned_string(value), max_age));
        assert(cookie_settings_view(s.set_cookies@) =~= cookie_settings_view(before).push(
            (name@, value@, max_age as int),
        ));
        s
    }

    /// The response that also removes the cookie `name`.
    pub fn without_cookie(self, name: &str) -> (r: Self)
        ensures
            r@ == (ResponseModel { remove_cookies: self@.remove_cookies.push(name@), ..self@ }),
    {
        let mut s = self;
        let ghost before = s.remove_cookies@;
        s.remove_cookies.push(to_owned_string(name));
        assert(strings_view(s.remove_cookies@) =~= strings_view(before).push(name@));
        s
    }

    /// The response with one more header.
    pub fn with_header(self, name: &str, value: &str) -> (r: Self)
        ensures
            r@ == (ResponseModel {
                extra_headers: self@.extra_headers.push((name@, value@)),
                ..self@
            }),
    {
        let mut s = self;
        let ghost before = s.extra_headers@;
        s.extra_headers.push(header_pair(name, value));
        assert(string_pairs_view(s.extra_headers@) =~= string_pairs_view(before).push(
            (name@, value@),
        ));
        s
    }

    /// The headers this response is sent with (see `response_headers`).
    pub fn http_headers(&self) -> (r: Vec<(String, String)>)
        ensures
            string_pairs_view(r@) == response_headers(self@),
    {
        let mut out: Vec<(String, String)> = Vec::new();
        out.push(header_pair("Content-Type", self.content_type.as_str()));
        out.push(
            header_pair(
                "Content-Security-Policy",
                "default-src 'self'; style-src 'self' 'unsafe-inline'; img-src 'self' data:; font-src 'self'",
            ),
        );
        out.push(header_pair("Strict-Transport-Security", "max-age=31536000; includeSubDomains"));
        out.push(header_pair("X-Frame-Options", "DENY"));
        out.push(header_pair("X-Content-Type-Options", "nosniff"));
        out.push(header_pair("Referrer-Policy", "strict-origin-when-cross-origin"));
        let ghost head = seq![("Content-Type"@, self@.content_type)] + security_headers();
        assert(string_pairs_view(out@) =~= head);
        match &self.location {
            Some(l) => {
                out.push(header_pair("Location", l.as_str()));
            },
            None => {},
        }
        let ghost with_loc = head + location_headers(self@.location);
        assert(string_pairs_view(out@) =~= with_loc);
        let ghost sc = set_cookie_headers(self@.set_cookies);
        let mut i: usize = 0;
        while i < self.set_cookies.len()
            invariant
                i <= self.set_cookies.len(),
                sc.len() == self.set_cookies.len(),
                sc == set_cookie_headers(self@.set_cookies),
                string_pairs_view(out@) == with_loc + sc.subrange(0, i as int),
            decreases self.set_cookies.len() - i,
        {
            let (name, value, age) = &self.set_cookies[i];
            let d = i64_to_decimal(*age);
            let a = concat3(name.as_str(), "=", value.as_str());
            let text = concat3(a.as_str(), "; HttpOnly; Path=/; SameSite=Lax; Max-Age=", d.as_str());
            let ghost before = out@;
            out.push(header_pair("Set-Cookie", text.as_str()));
            proof {
                assert(self@.set_cookies[i as int] == (name@, value@, *age as int));
                assert(text@ == set_cookie_text(name@, value@, *age as int));
                assert(string_pairs_view(out@) =~= string_pairs_view(before).push(
                    ("Set-Cookie"@, text@),
                ));
                assert(sc.subrange(0, i + 1) =~= sc.subrange(0, i as int).push(sc[i as int]));
            }
            i += 1;
        }
        let ghost with_set = with_loc + sc;
        assert(sc.subrange(0, sc.len() as int) =~= sc);
        let ghost rc = remove_cookie_headers(self@.remove_cookies);
        let mut j: usize = 0;
        while j < self.remove_cookies.len()
            invariant
                j <= self.remove_cookies.len(),
                rc.len() == self.remove_cookies.len(),
                rc == remove_cookie_headers(self@.remove_cookies),
                string_pairs_view(out@) == with_set + rc.subrange(0, j as int),
            decreases self.remove_cookies.len() - j,
        {
            let text = concat2(
                self.remove_cookies[j].as_str(),
                "=; HttpOnly; Path=/; SameSite=Lax; Max-Age=0",
            );
            let ghost before = out@;
            out.push(header_pair("Set-Cookie", text.as_str()));
            proof {
                assert(self@.remove_cookies[j as int] == self.remove_cookies@[j as int]@);
                assert(string_pairs_view(out@) =~= string_pairs_view(before).push(
                    ("Set-Cookie"@, text@),
                ));
                assert(rc.subrange(0, j + 1) =~= rc.subrange(0, j as int).push(rc[j as int]));
            }
            j += 1;
        }
        let ghost with_rm = with_set + rc;
        assert(rc.subrange(0, rc.len() as int) =~= rc);
        let ghost ex = self@.extra_headers;
        let mut k: usize = 0;
        while k < self.extra_headers.len()
            invariant
                k <= self.extra_headers.len(),
                ex == self@.extra_headers,
                ex.len() == self.extra_headers.len(),
                string_pairs_view(out@) == with_rm + ex.subrange(0, k as int),
            decreases self.extra_headers.len() - k,
        {
            let ghost before = out@;
            out.push(header_pair(self.extra_headers[k].0.as_str(), self.extra_headers[k].1.as_str()));
            proof {
                assert(ex[k as int] == (self.extra_headers@[k as int].0@, self.extra_headers@[k as int].1@));
                assert(string_pairs_view(out@) =~= string_pairs_view(before).push(ex[k as int]));
                assert(ex.subrange(0, k + 1) =~= ex.subrange(0, k as int).push(ex[k as int]));
            }
            k += 1;
        }
        assert(ex.subrange(0, ex.len() as int) =~= ex);
        out
    }

    /// Builds the `http` response: the status code, the headers of
    /// `http_headers` in order, and the body. When `http` refuses a header, the
    /// answer is the plain 500 of `fallback_model`, which carries the security
    /// headers too.
    pub fn into_http_response(self) -> (r: http::Response<String>)
        ensures
            sent_model(r, self@) || sent_model(r, fallback_model()),
            headers_valid(response_headers(self@)) && header_map_of(response_headers(self@)).dom().len()
                < 6554 ==> sent_model(
                r,
                self@,
            ),
            !headers_valid(response_headers(self@)) ==> sent_model(r, fallback_model()),
            carries_security_headers(response_header_map(r)),
    {
        let headers = self.http_headers();
        let code = self.status.code();
        proof {
            lemma_sent_security_headers(self@);
            lemma_sent_security_headers(fallback_model());
        }
        match build_response(code, &headers, self.body) {
            Ok(r) => r,
            Err(_) => {
                let f = fallback_response();
                let fh = f.http_headers();
                proof {
                    lemma_fallback_headers_valid();
                }
                build_response(500, &fh, f.body).unwrap()
            },
        }
    }
}

/// The answer sent when `http` refuses a header of a response: a 500 with the
/// text `Internal Server Error`.
pub open spec fn fallback_model() -> ResponseModel {
    plain_model(SafeStatus::ServerError, "Internal Server Error"@, "text/plain; charset=utf-8"@)
}

fn fallback_response() -> (r: SafeResponse)
    ensures
        r@ == fallback_model(),
{
    plain(SafeStatus::ServerError, String::from_str("Internal Server Error"), text_plain())
}

/// The headers of the fallback answer are all taken by `http`.
proof fn lemma_fallback_headers_valid()
    ensures
        headers_valid(response_headers(fallback_model())),
        header_map_of(response_headers(fallback_model())).dom().len() < 6554,
{
    let m = fallback_model();
    let hs = response_headers(m);
    let head = seq![("Content-Type"@, m.content_type)] + security_headers();
    assert(m.extra_headers.len() == 0);
    assert(set_cookie_headers(m.set_cookies).len() == 0);
    assert(remove_cookie_headers(m.remove_cookies).len() == 0);
    assert(hs =~= head);
    lemma_header_map_size(hs);
    reveal_strlit("Content-Type");
    reveal_strlit("Content-Security-Policy");
    reveal_strlit("Strict-Transport-Security");
    reveal_strlit("X-Frame-Options");
    reveal_strlit("X-Content-Type-Options");
    reveal_strlit("Referrer-Policy");
    reveal_strlit("text/plain; charset=utf-8");
    reveal_strlit("default-src 'self'; style-src 'self' 'unsafe-inline'; img-src 'self' data:; font-src 'self'");
    reveal_strlit("max-age=31536000; includeSubDomains");
    reveal_strlit("DENY");
    reveal_strlit("nosniff");
    reveal_strlit("strict-origin-when-cross-origin");
    assert(header_name_valid("Content-Type"@));
    assert(header_name_valid("Content-Security-Policy"@));
    assert(header_name_valid("Strict-Transport-Security"@));
    assert(header_name_valid("X-Frame-Options"@));
    assert(header_name_valid("X-Content-Type-Options"@));
    assert(header_name_valid("Referrer-Policy"@));
    assert(header_value_valid("text/plain; charset=utf-8"@));
    assert(header_value_valid(csp_value()));
    assert(header_value_valid("max-age=31536000; includeSubDomains"@));
    assert(header_value_valid("DENY"@));
    assert(header_value_valid("nosniff"@));
    assert(header_value_valid("strict-origin-when-cross-origin"@));
}

/// The response `r` is the one `m` describes: its status code, its headers
/// appended in order, its body.
pub open spec fn sent_model(r: http::Response<String>, m: ResponseModel) -> bool {
    sent_as(r, status_code(m.status), header_map_of(response_headers(m)), m.body)
}

/// The header map holds each security header, its value first among the
/// values of its name.
pub open spec fn carries_security_headers(map: HeaderContents) -> bool {
    forall|j: int|
        0 <= j < 5 ==> {
            let (n, v) = #[trigger] security_headers()[j];
            &&& map.contains_key(ascii_lower(n))
            &&& map[ascii_lower(n)].len() > 0
            &&& map[ascii_lower(n)][0] == v
        }
}

proof fn lemma_security_names_distinct()
    ensures
        forall|a: int, b: int|
            0 <= a < 6 && 0 <= b < 6 && a != b ==> ascii_lower(
                (seq![("Content-Type"@, Seq::<char>::empty())] + security_headers())[a].0,
            ) != ascii_lower((seq![("Content-Type"@, Seq::<char>::empty())] + security_headers())[b].0),
{
    reveal_strlit("Content-Type");
    reveal_strlit("Content-Security-Policy");
    reveal_strlit("Strict-Transport-Security");
    reveal_strlit("X-Frame-Options");
    reveal_strlit("X-Content-Type-Options");
    reveal_strlit("Referrer-Policy");
    let hs = seq![("Content-Type"@, Seq::<char>::empty())] + security_headers();
    assert forall|a: int, b: int| 0 <= a < 6 && 0 <= b < 6 && a != b implies ascii_lower(hs[a].0)
        != ascii_lower(hs[b].0) by {
        let x = ascii_lower(hs[a].0);
        let y = ascii_lower(hs[b].0);
        if x.len() == y.len() {
            assert(x[0] != y[0]);
        }
    }
}

/// Every response built from a model carries the security headers: the first
/// value of each security header's name is the security header's value, what
/// further headers the response adds.
pub proof fn lemma_sent_security_headers(m: ResponseModel)
    ensures
        carries_security_headers(header_map_of(response_headers(m))),
{
    let hs = response_headers(m);
    let head = seq![("Content-Type"@, m.content_type)] + security_headers();
    lemma_security_headers_always_sent(m);
    lemma_security_names_distinct();
    assert(hs.subrange(0, 6) =~= head);
    lemma_header_map_grows(hs, 6);
    assert forall|j: int| 0 <= j < 5 implies {
        let (n, v) = #[trigger] security_headers()[j];
        &&& header_map_of(hs).contains_key(ascii_lower(n))
        &&& header_map_of(hs)[ascii_lower(n)].len() > 0
        &&& header_map_of(hs)[ascii_lower(n)][0] == v
    } by {
        let (n, v) = security_headers()[j];
        let k = ascii_lower(n);
        let names = seq![("Content-Type"@, Seq::<char>::empty())] + security_headers();
        let p = hs.subrange(0, j + 2);
        let q = hs.subrange(0, j + 1);
        assert(p.drop_last() =~= q);
        assert(hs[j + 1] == head[j + 1]);
        assert(p.last() == security_headers()[j]);
        assert(names[j + 1].0 == n);
        assert forall|i: int| 0 <= i < q.len() implies ascii_lower(#[trigger] q[i].0) != k by {
            assert(q[i] == hs[i]);
            assert(hs[i] == head[i]);
            assert(head[i].0 == names[i].0);
        }
        lemma_absent_key(q, k);
        assert(header_map_of(p)[k] == seq![v]);
        lemma_header_map_grows(hs, j + 2);
        assert(header_map_of(p).contains_key(k));
        let full = header_map_of(hs)[k];
        assert(full.subrange(0, 1) == seq![v]);
        assert(full.subrange(0, 1)[0] == full[0]);
        assert(full[0] == v);
    }
}

/// Every response is sent with the security headers (CSP, HSTS,
/// `X-Frame-Options: DENY`, `X-Content-Type-Options: nosniff` and the
/// `Referrer-Policy`), right after its `Content-Type`.
pub proof fn lemma_security_headers_always_sent(m: ResponseModel)
    ensures
        response_headers(m).len() >= 6,
        response_headers(m)[0] == ("Content-Type"@, m.content_type),
        forall|i: int| 0 <= i < 5 ==> response_headers(m)[i + 1] == #[trigger] security_headers()[i],
{
    let head = seq![("Content-Type"@, m.content_type)] + security_headers();
    assert(head.len() == 6);
    let rest = location_headers(m.location) + set_cookie_headers(m.set_cookies)
        + remove_cookie_headers(m.remove_cookies) + m.extra_headers;
    assert(response_headers(m) =~= head + rest);
    assert forall|i: int| 0 <= i < 5 implies response_headers(m)[i + 1] == #[trigger] security_headers()[i] by {
        assert((head + rest)[i + 1] == head[i + 1]);
    }
}

} // verus!
