//! `SafeRequest`: the only request type handlers see, built from validated
//! parts; and `SafeMethod`, the HTTP method as an enum.
use vstd::prelude::*;
use crate::text::{
    concat2, hex_lower, opt_str_view, opt_string_view, str_eq, to_owned_string, u128_to_hex,
};
use super::safe_body::{BodyModel, SafeBody};
use super::safe_cookies::{cookies_model, CookiesModel, SafeCookies};
use super::safe_headers::{csrf_ok, no_headers, HeadersModel, SafeHeaders};
use super::safe_path::SafePath;

verus! {

/// An HTTP method.
#[derive(Debug, Clone, Copy, PartialEq, Eq, Structural)]
pub enum SafeMethod {
    Get,
    Post,
    Put,
    Delete,
    Patch,
    Head,
    Options,
}

/// The method's name, in capitals.
pub open spec fn method_name(m: SafeMethod) -> Seq<char> {
    match m {
        SafeMethod::Get => "GET"@,
        SafeMethod::Post => "POST"@,
        SafeMethod::Put => "PUT"@,
        SafeMethod::Delete => "DELETE"@,
        SafeMethod::Patch => "PATCH"@,
        SafeMethod::Head => "HEAD"@,
        SafeMethod::Options => "OPTIONS"@,
    }
}

/// The method named by `t`; an unknown name is read as `GET`.
pub open spec fn method_of_text(t: Seq<char>) -> SafeMethod {
    if t == "GET"@ {
        SafeMethod::Get
    } else if t == "POST"@ {
        SafeMethod::Post
    } else if t == "PUT"@ {
        SafeMethod::Put
    } else if t == "DELETE"@ {
        SafeMethod::Delete
    } else if t == "PATCH"@ {
        SafeMethod::Patch
    } else if t == "HEAD"@ {
        SafeMethod::Head
    } else if t == "OPTIONS"@ {
        SafeMethod::Options
    } else {
        SafeMethod::Get
    }
}

/// `http::Method`, held opaquely.
#[verifier::external_type_specification]
#[verifier::external_body]
pub struct ExMethod(http::Method);

/// The name of an `http::Method` (`Method::as_str`).
pub uninterp spec fn method_name_of(m: http::Method) -> Seq<char>;

/// Calls `Method::as_str`: the method's name, a function of the method alone,
/// named `method_name_of`.
#[verifier::external_body]
fn method_text(m: &http::Method) -> (r: String)
    ensures
        r@ == method_name_of(*m),
{
    m.as_str().to_string()
}

/// `SystemTime::now()` as nanoseconds since the Unix epoch (`None` for a clock
/// set before it). It depends on the time, so nothing is stated of it.
#[verifier::external_body]
fn unix_time_nanos() -> Option<u128> {
    std::time::SystemTime::now().duration_since(std::time::UNIX_EPOCH).ok().map(|d| d.as_nanos())
}

impl SafeMethod {
    /// The method's name (`"GET"`, `"POST"`, …).
    pub fn as_str(&self) -> (r: &'static str)
        ensures
            r@ == method_name(*self),
    {
        match self {
            SafeMethod::Get => "GET",
            SafeMethod::Post => "POST",
            SafeMethod::Put => "PUT",
            SafeMethod::Delete => "DELETE",
            SafeMethod::Patch => "PATCH",
            SafeMethod::Head => "HEAD",
            SafeMethod::Options => "OPTIONS",
        }
    }

    /// The method with the name `name`; an unknown name gives `Get`.
    pub fn from_name(name: &str) -> (r: SafeMethod)
        ensures
            r == method_of_text(name@),
    {
        if str_eq(name, "GET") {
            SafeMethod::Get
        } else if str_eq(name, "POST") {
            SafeMethod::Post
        } else if str_eq(name, "PUT") {
            SafeMethod::Put
        } else if str_eq(name, "DELETE") {
            SafeMethod::Delete
        } else if str_eq(name, "PATCH") {
            SafeMethod::Patch
        } else if str_eq(name, "HEAD") {
            SafeMethod::Head
        } else if str_eq(name, "OPTIONS") {
            SafeMethod::Options
        } else {
            SafeMethod::Get
        }
    }

    /// The method of an `http::Method`, by its name (see `from_name`).
    pub fn from_method(m: &http::Method) -> (r: SafeMethod)
        ensures
            r == method_of_text(method_name_of(*m)),
    {
        let name = method_text(m);
        SafeMethod::from_name(name.as_str())
    }

    /// Whether this is `GET`.
    pub fn is_get(&self) -> (b: bool)
        ensures
            b == (*self == SafeMethod::Get),
    {
        match self {
            SafeMethod::Get => true,
            _ => false,
        }
    }

    /// Whether this is `POST`.
    pub fn is_post(&self) -> (b: bool)
        ensures
            b == (*self == SafeMethod::Post),
    {
        match self {
            SafeMethod::Post => true,
            _ => false,
        }
    }
}

/// A request as plain values.
pub struct RequestModel {
    pub method: SafeMethod,
    pub path: Seq<char>,
    pub query_string: Option<Seq<char>>,
    pub headers: HeadersModel,
    pub cookies: CookiesModel,
    pub body: BodyModel,
    pub client_ip: Seq<char>,
    pub request_id: Seq<char>,
    pub site_url: Seq<char>,
}

/// A request whose every part was validated.
#[derive(Debug, Clone)]
pub struct SafeRequest {
    /// The method.
    pub method: SafeMethod,
    /// The path (no traversal, no control chars).
    pub path: SafePath,
    /// The raw query string.
    pub query_string: Option<String>,
    /// The headers (no injection).
    pub headers: SafeHeaders,
    /// The cookies (validated values).
    pub cookies: SafeCookies,
    /// The body, parsed by its `Content-Type`.
    pub body: SafeBody,
    /// The client's address (from `X-Forwarded-For`, else `unknown`).
    pub client_ip: String,
    /// An id for tracing the request.
    pub request_id: String,
    /// The site's URL (configuration), for the CSRF check.
    pub site_url: String,
}

impl View for SafeRequest {
    type V = RequestModel;

    open spec fn view(&self) -> RequestModel {
        RequestModel {
            method: self.method,
            path: self.path@,
            query_string: opt_string_view(self.query_string),
            headers: self.headers@,
            cookies: self.cookies@,
            body: self.body@,
            client_ip: self.client_ip@,
            request_id: self.request_id@,
            site_url: self.site_url@,
        }
    }
}

/// The id of a request made `nanos` nanoseconds after the Unix epoch.
pub open spec fn request_id_text(nanos: nat) -> Seq<char> {
    "req_"@ + hex_lower(nanos)
}

impl SafeRequest {
    /// An empty `GET /` request, with nothing sent (for tests).
    pub fn empty() -> (r: SafeRequest)
        ensures
            r@.method == SafeMethod::Get,
            r@.path == seq!['/'],
            r@.query_string is None,
            r@.headers == no_headers(),
            r@.cookies == cookies_model(Seq::empty()),
            r@.body == BodyModel::Empty,
            r@.client_ip == "unknown"@,
            r@.request_id == Seq::<char>::empty(),
            r@.site_url == Seq::<char>::empty(),
    {
        let cookies = SafeCookies::empty();
        SafeRequest {
            method: SafeMethod::Get,
            path: SafePath::root(),
            query_string: None,
            headers: SafeHeaders::empty(),
            cookies,
            body: SafeBody::Empty,
            client_ip: to_owned_string("unknown"),
            request_id: String::new(),
            site_url: String::new(),
        }
    }

    /// The CSRF check of the request's headers against its site URL.
    pub fn verify_csrf(&self) -> (b: bool)
        ensures
            b == csrf_ok(self@.headers, self@.site_url),
    {
        self.headers.verify_csrf(self.site_url.as_str())
    }

    /// The id of a request made `nanos` nanoseconds after the Unix epoch:
    /// `req_` and the number in lower-case hex.
    pub fn request_id_from_nanos(nanos: u128) -> (r: String)
        ensures
            r@ == request_id_text(nanos as nat),
    {
        let hex = u128_to_hex(nanos);
        concat2("req_", hex.as_str())
    }

    /// A new request id from the clock (see `request_id_from_nanos`; a clock
    /// before the Unix epoch counts as 0).
    pub fn generate_request_id() -> (r: String)
        ensures
            exists|n: u128| r@ == #[trigger] request_id_text(n as nat),
    {
        let nanos = match unix_time_nanos() {
            Some(n) => n,
            None => 0,
        };
        SafeRequest::request_id_from_nanos(nanos)
    }

    /// The method's name.
    pub fn method_str(&self) -> (r: &'static str)
        ensures
            r@ == method_name(self@.method),
    {
        self.method.as_str()
    }

    /// The path.
    pub fn path_str(&self) -> (r: &str)
        ensures
            r@ == self@.path,
    {
        self.path.as_str()
    }

    /// The authentication token from the cookies.
    pub fn auth_token(&self) -> (r: Option<&str>)
        ensures
            opt_str_view(r) == self@.cookies.token,
    {
        self.cookies.token()
    }

    /// The session id from the cookies.
    pub fn session_id(&self) -> (r: Option<&str>)
        ensures
            opt_str_view(r) == self@.cookies.session_id,
    {
        self.cookies.session_id()
    }
}

} // verus!
