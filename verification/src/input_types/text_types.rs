//! Free-text fields with a length limit: names, addresses, notes, brands,
//! product names and search queries.
use vstd::prelude::*;
use crate::input_types::error::InputError;
use crate::text::{byte_len, string_byte_len, trim, trim_string};

verus! {

/// What a bounded text parser decides about input `s`: `None` when the trimmed
/// text is empty, `Some(Err(()))` when it is longer than `max` bytes, otherwise
/// the trimmed text.
pub open spec fn bounded_text(s: Seq<char>, max: usize) -> Option<Result<Seq<char>, ()>> {
    let t = trim(s);
    if t.len() == 0 {
        None
    } else if byte_len(t) > max {
        Some(Err(()))
    } else {
        Some(Ok(t))
    }
}

/// Trims `s` and checks it against the bounds: `Err(true)` when empty,
/// `Err(false)` when longer than `max` bytes.
fn parse_bounded(s: &str, max: usize) -> (r: Result<String, bool>)
    ensures
        bounded_text(s@, max) is None ==> r == Err::<String, bool>(true),
        bounded_text(s@, max) == Some(Err::<Seq<char>, ()>(())) ==> r == Err::<String, bool>(false),
        bounded_text(s@, max) matches Some(Ok(t)) ==> (r matches Ok(v) && v@ == t),
{
    let t = trim_string(s);
    if t.as_str().is_empty() {
        return Err(true);
    }
    if string_byte_len(&t) > max {
        return Err(false);
    }
    Ok(t)
}

/// The outcome of a bounded text parser as a text or the error it reports.
pub open spec fn text_outcome(s: Seq<char>, max: usize, empty: InputError, long: InputError) -> Result<
    Seq<char>,
    InputError,
> {
    match bounded_text(s, max) {
        None => Err(empty),
        Some(Err(_)) => Err(long),
        Some(Ok(t)) => Ok(t),
    }
}

/// Name of the person an order ships to (at most 200 bytes).
#[derive(Debug, Clone, PartialEq, Eq)]
pub struct ShippingName(String);

impl ShippingName {
    /// The text.
    pub closed spec fn text(&self) -> Seq<char> {
        self.0@
    }

    /// What parsing `s` gives: the accepted text or the error.
    pub open spec fn parse_outcome(s: Seq<char>) -> Result<Seq<char>, InputError> {
        text_outcome(s, 200, InputError::EmptyName, InputError::NameTooLong)
    }

    /// `r` is the value that `parse_outcome` describes.
    pub open spec fn is_outcome(r: Result<Self, InputError>, o: Result<Seq<char>, InputError>) -> bool {
        match r {
            Ok(v) => o == Ok::<Seq<char>, InputError>(v.text()),
            Err(e) => o == Err::<Seq<char>, InputError>(e),
        }
    }

    /// Trimmed, non-empty, at most 200 bytes.
    pub fn parse(s: &str) -> (r: Result<Self, InputError>)
        ensures
            Self::is_outcome(r, Self::parse_outcome(s@)),
    {
        match parse_bounded(s, 200) {
            Ok(t) => Ok(ShippingName(t)),
            Err(true) => Err(InputError::EmptyName),
            Err(false) => Err(InputError::NameTooLong),
        }
    }

    /// The text.
    pub fn as_str(&self) -> (r: &str)
        ensures
            r@ == self.text(),
    {
        self.0.as_str()
    }
}

/// Shipping address (at most 500 bytes).
#[derive(Debug, Clone, PartialEq, Eq)]
pub struct ShippingAddress(String);

impl ShippingAddress {
    /// The text.
    pub closed spec fn text(&self) -> Seq<char> {
        self.0@
    }

    /// What parsing `s` gives: the accepted text or the error.
    pub open spec fn parse_outcome(s: Seq<char>) -> Result<Seq<char>, InputError> {
        text_outcome(s, 500, InputError::EmptyAddress, InputError::AddressTooLong)
    }

    /// `r` is the value that `parse_outcome` describes.
    pub open spec fn is_outcome(r: Result<Self, InputError>, o: Result<Seq<char>, InputError>) -> bool {
        match r {
            Ok(v) => o == Ok::<Seq<char>, InputError>(v.text()),
            Err(e) => o == Err::<Seq<char>, InputError>(e),
        }
    }

    /// Trimmed, non-empty, at most 500 bytes.
    pub fn parse(s: &str) -> (r: Result<Self, InputError>)
        ensures
            Self::is_outcome(r, Self::parse_outcome(s@)),
    {
        match parse_bounded(s, 500) {
            Ok(t) => Ok(ShippingAddress(t)),
            Err(true) => Err(InputError::EmptyAddress),
            Err(false) => Err(InputError::AddressTooLong),
        }
    }

    /// The text.
    pub fn as_str(&self) -> (r: &str)
        ensures
            r@ == self.text(),
    {
        self.0.as_str()
    }
}

/// Order notes (at most 2000 bytes).
#[derive(Debug, Clone, PartialEq, Eq)]
pub struct Notes(String);

impl Notes {
    /// The text.
    pub closed spec fn text(&self) -> Seq<char> {
        self.0@
    }

    /// What parsing `s` gives: the accepted text or the error.
    pub open spec fn parse_outcome(s: Seq<char>) -> Result<Seq<char>, InputError> {
        text_outcome(s, 2000, InputError::EmptyAddress, InputError::NotesTooLong)
    }

    /// `r` is the value that `parse_outcome` describes.
    pub open spec fn is_outcome(r: Result<Self, InputError>, o: Result<Seq<char>, InputError>) -> bool {
        match r {
            Ok(v) => o == Ok::<Seq<char>, InputError>(v.text()),
            Err(e) => o == Err::<Seq<char>, InputError>(e),
        }
    }

    /// Trimmed, non-empty (refused as `EmptyAddress`), at most 2000 bytes.
    pub fn parse(s: &str) -> (r: Result<Self, InputError>)
        ensures
            Self::is_outcome(r, Self::parse_outcome(s@)),
    {
        match parse_bounded(s, 2000) {
            Ok(t) => Ok(Notes(t)),
            Err(true) => Err(InputError::EmptyAddress),
            Err(false) => Err(InputError::NotesTooLong),
        }
    }

    /// The text.
    pub fn as_str(&self) -> (r: &str)
        ensures
            r@ == self.text(),
    {
        self.0.as_str()
    }
}

/// Product brand (at most 100 bytes).
#[derive(Debug, Clone, PartialEq, Eq)]
pub struct Brand(String);

impl Brand {
    /// The text.
    pub closed spec fn text(&self) -> Seq<char> {
        self.0@
    }

    /// What parsing `s` gives: the accepted text or the error.
    pub open spec fn parse_outcome(s: Seq<char>) -> Result<Seq<char>, InputError> {
        text_outcome(s, 100, InputError::EmptyBrand, InputError::BrandTooLong)
    }

    /// `r` is the value that `parse_outcome` describes.
    pub open spec fn is_outcome(r: Result<Self, InputError>, o: Result<Seq<char>, InputError>) -> bool {
        match r {
            Ok(v) => o == Ok::<Seq<char>, InputError>(v.text()),
            Err(e) => o == Err::<Seq<char>, InputError>(e),
        }
    }

    /// Trimmed, non-empty, at most 100 bytes.
    pub fn parse(s: &str) -> (r: Result<Self, InputError>)
        ensures
            Self::is_outcome(r, Self::parse_outcome(s@)),
    {
        match parse_bounded(s, 100) {
            Ok(t) => Ok(Brand(t)),
            Err(true) => Err(InputError::EmptyBrand),
            Err(false) => Err(InputError::BrandTooLong),
        }
    }

    /// The text.
    pub fn as_str(&self) -> (r: &str)
        ensures
            r@ == self.text(),
    {
        self.0.as_str()
    }
}

/// Product name (at most 200 bytes).
#[derive(Debug, Clone, PartialEq, Eq)]
pub struct ProductName(String);

impl ProductName {
    /// The text.
    pub closed spec fn text(&self) -> Seq<char> {
        self.0@
    }

    /// What parsing `s` gives: the accepted text or the error.
    pub open spec fn parse_outcome(s: Seq<char>) -> Result<Seq<char>, InputError> {
        text_outcome(s, 200, InputError::EmptyProductName, InputError::ProductNameTooLong)
    }

    /// `r` is the value that `parse_outcome` describes.
    pub open spec fn is_outcome(r: Result<Self, InputError>, o: Result<Seq<char>, InputError>) -> bool {
        match r {
            Ok(v) => o == Ok::<Seq<char>, InputError>(v.text()),
            Err(e) => o == Err::<Seq<char>, InputError>(e),
        }
    }

    /// Trimmed, non-empty, at most 200 bytes.
    pub fn parse(s: &str) -> (r: Result<Self, InputError>)
        ensures
            Self::is_outcome(r, Self::parse_outcome(s@)),
    {
        match parse_bounded(s, 200) {
            Ok(t) => Ok(ProductName(t)),
            Err(true) => Err(InputError::EmptyProductName),
            Err(false) => Err(InputError::ProductNameTooLong),
        }
    }

    /// The text.
    pub fn as_str(&self) -> (r: &str)
        ensures
            r@ == self.text(),
    {
        self.0.as_str()
    }
}

/// Search query (at most 200 bytes).
#[derive(Debug, Clone, PartialEq, Eq)]
pub struct SearchQuery(String);

impl SearchQuery {
    /// The text.
    pub closed spec fn text(&self) -> Seq<char> {
        self.0@
    }

    /// What parsing `s` gives: the accepted text or the error.
    pub open spec fn parse_outcome(s: Seq<char>) -> Result<Seq<char>, InputError> {
        text_outcome(s, 200, InputError::EmptyName, InputError::SearchQueryTooLong)
    }

    /// `r` is the value that `parse_outcome` describes.
    pub open spec fn is_outcome(r: Result<Self, InputError>, o: Result<Seq<char>, InputError>) -> bool {
        match r {
            Ok(v) => o == Ok::<Seq<char>, InputError>(v.text()),
            Err(e) => o == Err::<Seq<char>, InputError>(e),
        }
    }

    /// Trimmed, non-empty (refused as `EmptyName`), at most 200 bytes.
    pub fn parse(s: &str) -> (r: Result<Self, InputError>)
        ensures
            Self::is_outcome(r, Self::parse_outcome(s@)),
    {
        match parse_bounded(s, 200) {
            Ok(t) => Ok(SearchQuery(t)),
            Err(true) => Err(InputError::EmptyName),
            Err(false) => Err(InputError::SearchQueryTooLong),
        }
    }

    /// The text.
    pub fn as_str(&self) -> (r: &str)
        ensures
            r@ == self.text(),
    {
        self.0.as_str()
    }
}

} // verus!
