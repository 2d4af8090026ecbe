//! The trust boundary between the application and the outside world: every
//! request is validated on the way in (path, headers, cookies, body) and every
//! response leaves with the security headers set.
use vstd::prelude::*;
use vstd::string::StringExecFns;
use crate::text::{concat3, decimal_nat, u64_to_decimal};

pub mod boundary;
pub mod http_response;
pub mod safe_body;
pub mod safe_cookies;
pub mod safe_headers;
pub mod safe_path;
pub mod safe_request;
pub mod safe_response;

verus! {

/// Why a request was refused at the boundary.
#[derive(Debug, Clone, PartialEq)]
pub enum BoundaryError {
    /// The path holds `..`.
    PathTraversalDetected(String),
    /// The path holds a NUL or another control char.
    InvalidCharacters(String),
    /// The path is longer than 255 bytes (its length).
    PathTooLong(usize),
    /// The path does not start with `/`.
    InvalidPath(String),
    /// A header value holds `\r` or `\n` (the header's name).
    HeaderInjection(String),
    /// A header value is not visible ASCII (the header's name).
    InvalidHeader(String),
    /// A header value is longer than 4096 bytes (the header's name).
    HeaderTooLong(String),
    /// A cookie value is longer than 256 bytes (the cookie's name).
    CookieTooLong(String),
    /// A cookie value holds `;`, `,` or a space (the cookie's name).
    InvalidCookieValue(String),
    /// The body is larger than 2 MiB (its size).
    BodyTooLarge(usize),
    /// The body is not valid UTF-8.
    InvalidUtf8,
    /// The body is not valid JSON (the parser's message).
    InvalidJson(String),
}

/// A `BoundaryError` as plain values.
pub enum BoundaryFault {
    PathTraversalDetected(Seq<char>),
    InvalidCharacters(Seq<char>),
    PathTooLong(nat),
    InvalidPath(Seq<char>),
    HeaderInjection(Seq<char>),
    InvalidHeader(Seq<char>),
    HeaderTooLong(Seq<char>),
    CookieTooLong(Seq<char>),
    InvalidCookieValue(Seq<char>),
    BodyTooLarge(nat),
    InvalidUtf8,
    InvalidJson(Seq<char>),
}

impl View for BoundaryError {
    type V = BoundaryFault;

    open spec fn view(&self) -> BoundaryFault {
        match self {
            BoundaryError::PathTraversalDetected(p) => BoundaryFault::PathTraversalDetected(p@),
            BoundaryError::InvalidCharacters(p) => BoundaryFault::InvalidCharacters(p@),
            BoundaryError::PathTooLong(n) => BoundaryFault::PathTooLong(*n as nat),
            BoundaryError::InvalidPath(p) => BoundaryFault::InvalidPath(p@),
            BoundaryError::HeaderInjection(h) => BoundaryFault::HeaderInjection(h@),
            BoundaryError::InvalidHeader(h) => BoundaryFault::InvalidHeader(h@),
            BoundaryError::HeaderTooLong(h) => BoundaryFault::HeaderTooLong(h@),
            BoundaryError::CookieTooLong(n) => BoundaryFault::CookieTooLong(n@),
            BoundaryError::InvalidCookieValue(n) => BoundaryFault::InvalidCookieValue(n@),
            BoundaryError::BodyTooLarge(n) => BoundaryFault::BodyTooLarge(*n as nat),
            BoundaryError::InvalidUtf8 => BoundaryFault::InvalidUtf8,
            BoundaryError::InvalidJson(m) => BoundaryFault::InvalidJson(m@),
        }
    }
}

/// The message of a refusal, as its display shows it.
pub open spec fn fault_text(f: BoundaryFault) -> Seq<char> {
    match f {
        BoundaryFault::PathTraversalDetected(p) => "Path traversal detectat: "@ + p,
        BoundaryFault::InvalidCharacters(p) => "Caractere invalide în path: "@ + p,
        BoundaryFault::PathTooLong(n) => "Path prea lung: "@ + decimal_nat(n)
            + " caractere (max 255)"@,
        BoundaryFault::InvalidPath(p) => "Path invalid: "@ + p,
        BoundaryFault::HeaderInjection(h) => "Header injection detectat: "@ + h,
        BoundaryFault::InvalidHeader(h) => "Header invalid: "@ + h,
        BoundaryFault::HeaderTooLong(h) => "Header prea lung: "@ + h,
        BoundaryFault::CookieTooLong(n) => "Cookie prea lung: "@ + n,
        BoundaryFault::InvalidCookieValue(n) => "Cookie cu valoare invalidă: "@ + n,
        BoundaryFault::BodyTooLarge(n) => "Body prea mare: "@ + decimal_nat(n)
            + " bytes (max 2MB)"@,
        BoundaryFault::InvalidUtf8 => "Body nu e UTF-8 valid"@,
        BoundaryFault::InvalidJson(m) => "JSON invalid: "@ + m,
    }
}

fn with_prefix(p: &str, m: &String) -> (r: String)
    ensures
        r@ == p@ + m@,
{
    let mut r = String::from_str(p);
    r.append(m.as_str());
    r
}

impl BoundaryError {
    /// The message shown for this refusal.
    pub fn message(&self) -> (r: String)
        ensures
            r@ == fault_text(self@),
    {
        match self {
            BoundaryError::PathTraversalDetected(p) => with_prefix("Path traversal detectat: ", p),
            BoundaryError::InvalidCharacters(p) => with_prefix("Caractere invalide în path: ", p),
            BoundaryError::PathTooLong(n) => {
                let d = u64_to_decimal(*n as u64);
                concat3("Path prea lung: ", d.as_str(), " caractere (max 255)")
            },
            BoundaryError::InvalidPath(p) => with_prefix("Path invalid: ", p),
            BoundaryError::HeaderInjection(h) => with_prefix("Header injection detectat: ", h),
            BoundaryError::InvalidHeader(h) => with_prefix("Header invalid: ", h),
            BoundaryError::HeaderTooLong(h) => with_prefix("Header prea lung: ", h),
            BoundaryError::CookieTooLong(n) => with_prefix("Cookie prea lung: ", n),
            BoundaryError::InvalidCookieValue(n) => with_prefix("Cookie cu valoare invalidă: ", n),
            BoundaryError::BodyTooLarge(n) => {
                let d = u64_to_decimal(*n as u64);
                concat3("Body prea mare: ", d.as_str(), " bytes (max 2MB)")
            },
            BoundaryError::InvalidUtf8 => String::from_str("Body nu e UTF-8 valid"),
            BoundaryError::InvalidJson(m) => with_prefix("JSON invalid: ", m),
        }
    }
}

} // verus!
