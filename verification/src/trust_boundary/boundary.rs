//! `TrustBoundary`: turns a raw HTTP request into a `SafeRequest` (or the
//! reason it is refused), and refusals into responses.
use vstd::prelude::*;
use crate::text::{lowercase, opt_str_view, to_owned_string};
use super::safe_body::{body_outcome, SafeBody};
use super::safe_cookies::{cookies_outcome, SafeCookies};
use super::safe_headers::{byte_pairs_view, csrf_ok, first_forwarded, headers_outcome, map_get, SafeHeaders};
use super::safe_path::{path_outcome, SafePath};
use super::safe_request::{method_of_text, RequestModel, SafeMethod, SafeRequest};
use super::safe_response::{plain_model, ResponseModel, SafeResponse, SafeStatus};
use super::{fault_text, BoundaryError, BoundaryFault};

verus! {

/// `http::Request`, held opaquely.
#[verifier::external_type_specification]
#[verifier::external_body]
#[verifier::reject_recursive_types(T)]
pub struct ExRequest<T>(http::Request<T>);

/// `Request::method` and `Method::as_str`: the method's name. The request is
/// opaque here, so nothing is stated of it.
#[verifier::external_body]
fn request_method<B>(req: &http::Request<B>) -> String {
    req.method().as_str().to_string()
}

/// `Uri::path` of the request's URI. Nothing is stated of it.
#[verifier::external_body]
fn request_path<B>(req: &http::Request<B>) -> String {
    req.uri().path().to_string()
}

/// `Uri::query` of the request's URI. Nothing is stated of it.
#[verifier::external_body]
fn request_query<B>(req: &http::Request<B>) -> Option<String> {
    req.uri().query().map(|q| q.to_string())
}

/// `Request::headers`. Nothing is stated of the map.
#[verifier::external_body]
fn request_headers<B>(req: &http::Request<B>) -> &http::HeaderMap {
    req.headers()
}

/// `Request::body`, as bytes (`AsRef<[u8]>`). Nothing is stated of them.
#[verifier::external_body]
fn request_body<B: AsRef<[u8]>>(req: &http::Request<B>) -> Vec<u8> {
    req.body().as_ref().to_vec()
}

/// The request that validated parts make: the path, the headers, the cookies
/// (from the `Cookie` header) and the body (by the `Content-Type`) are checked
/// in this order, and the first refusal is the answer.
pub open spec fn request_outcome(
    method: Seq<char>,
    path: Seq<char>,
    query: Option<Seq<char>>,
    headers: Seq<(Seq<char>, Seq<u8>)>,
    body: Seq<u8>,
    request_id: Seq<char>,
    site_url: Seq<char>,
) -> Result<RequestModel, BoundaryFault> {
    match path_outcome(path) {
        Err(f) => Err(f),
        Ok(p) => match headers_outcome(headers) {
            Err(f) => Err(f),
            Ok(h) => match cookies_outcome(map_get(h.raw, lowercase("cookie"@))) {
                Err(f) => Err(f),
                Ok(c) => match body_outcome(h.content_type, body) {
                    Err(f) => Err(f),
                    Ok(b) => Ok(
                        RequestModel {
                            method: method_of_text(method),
                            path: p,
                            query_string: query,
                            headers: h,
                            cookies: c,
                            body: b,
                            client_ip: match h.x_forwarded_for {
                                Some(x) => first_forwarded(x),
                                None => "unknown"@,
                            },
                            request_id,
                            site_url,
                        },
                    ),
                },
            },
        },
    }
}

/// The response to a refused request: a 400 whatever the refusal, with a
/// fixed message for an oversized or non-UTF-8 body, else the refusal's message.
pub open spec fn error_response_model(f: BoundaryFault) -> ResponseModel {
    match f {
        BoundaryFault::BodyTooLarge(_) => plain_model(
            SafeStatus::BadRequest,
            "Body prea mare (max 2MB)"@,
            "text/plain; charset=utf-8"@,
        ),
        BoundaryFault::InvalidUtf8 => plain_model(
            SafeStatus::BadRequest,
            "Encoding invalid"@,
            "text/plain; charset=utf-8"@,
        ),
        _ => plain_model(SafeStatus::BadRequest, fault_text(f), "text/plain; charset=utf-8"@),
    }
}

/// The single entry point for data from outside.
pub struct TrustBoundary;

impl TrustBoundary {
    /// Builds a `SafeRequest` from the parts of a request (see
    /// `request_outcome`); the request id and the site URL are given.
    pub fn from_parts(
        method: &str,
        path: &str,
        query: Option<&str>,
        headers: &[(String, Vec<u8>)],
        body: &[u8],
        request_id: String,
        site_url: &str,
    ) -> (r: Result<SafeRequest, BoundaryError>)
        ensures
            match request_outcome(
                method@,
                path@,
                opt_str_view(query),
                byte_pairs_view(headers@),
                body@,
                request_id@,
                site_url@,
            ) {
                Ok(m) => r matches Ok(q) && q@ == m,
                Err(f) => r matches Err(e) && e@ == f,
            },
    {
        let method = SafeMethod::from_name(method);
        let path = match SafePath::parse(path) {
            Ok(p) => p,
            Err(e) => {
                return Err(e);
            },
        };
        let query_string = match query {
            Some(q) => Some(to_owned_string(q)),
            None => None,
        };
        let headers = match SafeHeaders::parse_entries(headers) {
            Ok(h) => h,
            Err(e) => {
                return Err(e);
            },
        };
        let cookies = match SafeCookies::parse_from_header(headers.get("cookie")) {
            Ok(c) => c,
            Err(e) => {
                return Err(e);
            },
        };
        let body = match SafeBody::parse(headers.content_type(), body) {
            Ok(b) => b,
            Err(e) => {
                return Err(e);
            },
        };
        let client_ip = match headers.client_ip() {
            Some(ip) => to_owned_string(ip),
            None => to_owned_string("unknown"),
        };
        Ok(
            SafeRequest {
                method,
                path,
                query_string,
                headers,
                cookies,
                body,
                client_ip,
                request_id,
                site_url: to_owned_string(site_url),
            },
        )
    }

    /// Validates an HTTP request: its method, path, query, headers, cookies
    /// and body go through `from_parts`, with a fresh request id and no site
    /// URL. The request is read through `http`, so the outcome is that of
    /// `from_parts` for the parts that came back.
    pub fn parse_request<B: AsRef<[u8]>>(req: &http::Request<B>) -> (r: Result<
        SafeRequest,
        BoundaryError,
    >)
        ensures
            exists|
                m: Seq<char>,
                p: Seq<char>,
                q: Option<Seq<char>>,
                h: Seq<(Seq<char>, Seq<u8>)>,
                b: Seq<u8>,
                id: Seq<char>,
            |
                match #[trigger] request_outcome(m, p, q, h, b, id, Seq::empty()) {
                    Ok(model) => r matches Ok(s) && s@ == model,
                    Err(f) => r matches Err(e) && e@ == f,
                },
    {
        proof {
            reveal_strlit("");
            assert(""@ =~= Seq::<char>::empty());
        }
        TrustBoundary::parse_request_with_config(req, "")
    }

    /// Like `parse_request`, with the site's URL set for the CSRF check.
    pub fn parse_request_with_config<B: AsRef<[u8]>>(req: &http::Request<B>, site_url: &str) -> (r:
        Result<SafeRequest, BoundaryError>)
        ensures
            exists|
                m: Seq<char>,
                p: Seq<char>,
                q: Option<Seq<char>>,
                h: Seq<(Seq<char>, Seq<u8>)>,
                b: Seq<u8>,
                id: Seq<char>,
            |
                match #[trigger] request_outcome(m, p, q, h, b, id, site_url@) {
                    Ok(model) => r matches Ok(s) && s@ == model,
                    Err(f) => r matches Err(e) && e@ == f,
                },
    {
        let method = request_method(req);
        let path = request_path(req);
        let query = request_query(req);
        let map = request_headers(req);
        let entries = super::safe_headers::header_map_pairs(map);
        let body = request_body(req);
        let id = SafeRequest::generate_request_id();
        let r = TrustBoundary::from_parts(
            method.as_str(),
            path.as_str(),
            crate::text::opt_as_str(&query),
            entries.as_slice(),
            body.as_slice(),
            id,
            site_url,
        );
        r
    }

    /// The response to a refused request (see `error_response_model`).
    pub fn error_response(err: &BoundaryError) -> (r: SafeResponse)
        ensures
            r@ == error_response_model(err@),
    {
        match err {
            BoundaryError::BodyTooLarge(_) => SafeResponse::bad_request("Body prea mare (max 2MB)"),
            BoundaryError::InvalidUtf8 => SafeResponse::bad_request("Encoding invalid"),
            _ => {
                let msg = err.message();
                SafeResponse::bad_request(msg.as_str())
            },
        }
    }

    /// The CSRF gate: a `POST` that fails the CSRF check is answered 403;
    /// anything else passes.
    pub fn verify_csrf(safe: &SafeRequest) -> (r: Result<(), SafeResponse>)
        ensures
            (safe@.method == SafeMethod::Post && !csrf_ok(safe@.headers, safe@.site_url)) ==> (r matches Err(resp)
                && resp@ == plain_model(SafeStatus::Forbidden, "Forbidden"@, "text/plain; charset=utf-8"@)),
            !(safe@.method == SafeMethod::Post && !csrf_ok(safe@.headers, safe@.site_url)) ==> r is Ok,
    {
        if safe.method.is_post() && !safe.verify_csrf() {
            return Err(SafeResponse::forbidden());
        }
        Ok(())
    }
}

} // verus!
