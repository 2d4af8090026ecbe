//! `SafeBody`: the request body, size-limited, checked as UTF-8 and parsed by
//! its `Content-Type` (form fields, JSON or plain text).
use vstd::prelude::*;
use vstd::utf8::{decode_utf8, valid_utf8};
use crate::input_types::parser::{
    eq_index, json_reading, pair_name, pair_value, pieces_view, read_json, split_chars, split_on,
};
use crate::keyed::TextMap;
use crate::text::{contains_str, contains_text, hex_digit, hex_val, opt_str_view, str_chars};
use super::{BoundaryError, BoundaryFault};

verus! {

/// The largest body accepted, in bytes (2 MiB).
pub const MAX_BODY_BYTES: usize = 2097152;

/// `std::str::from_utf8`: the text of `bytes` when they are valid UTF-8, as
/// the UTF-8 definition decodes them; `None` otherwise.
#[verifier::external_body]
fn utf8_text(bytes: &[u8]) -> (r: Option<String>)
    ensures
        r is Some <==> valid_utf8(bytes@),
        r matches Some(s) ==> s@ == decode_utf8(bytes@),
{
    match std::str::from_utf8(bytes) {
        Ok(s) => Some(s.to_string()),
        Err(_) => None,
    }
}

/// A hex digit's value, or 0 for any other char.
pub open spec fn hex_or_zero(c: char) -> u8 {
    match hex_val(c) {
        Some(v) => v,
        None => 0,
    }
}

/// URL-decoding of a body field: `+` is a space; `%` takes the next two chars
/// (as many as there are) as hex digits, a char that is no hex digit counting
/// as 0, and becomes the char with that code.
pub open spec fn body_decode(s: Seq<char>) -> Seq<char>
    decreases s.len(),
{
    if s.len() == 0 {
        s
    } else if s[0] == '+' {
        seq![' '] + body_decode(s.drop_first())
    } else if s[0] == '%' {
        let hi: u8 = if s.len() > 1 {
            hex_or_zero(s[1])
        } else {
            0
        };
        let lo: u8 = if s.len() > 2 {
            hex_or_zero(s[2])
        } else {
            0
        };
        let used: int = if s.len() > 2 {
            3
        } else {
            s.len() as int
        };
        seq![((((hi * 16 + lo) as u8) as u32) as char)] + body_decode(s.subrange(used, s.len() as int))
    } else {
        seq![s[0]] + body_decode(s.drop_first())
    }
}

/// The fields of a form body's `&`-separated pieces: empty pieces are
/// skipped, each piece splits at its first `=` (no `=`: an empty value), both
/// sides are decoded, and a later field replaces an earlier one of that name.
pub open spec fn form_map(ps: Seq<Seq<char>>) -> Map<Seq<char>, Seq<char>>
    decreases ps.len(),
{
    if ps.len() == 0 {
        Map::empty()
    } else {
        let m = form_map(ps.drop_last());
        if ps.last().len() == 0 {
            m
        } else {
            m.insert(body_decode(pair_name(ps.last())), body_decode(pair_value(ps.last())))
        }
    }
}

/// The body as plain values.
pub enum BodyModel {
    Form(Map<Seq<char>, Seq<char>>),
    Json(serde_json::Value),
    Text(Seq<char>),
    Empty,
}

/// How a body is read, by its `Content-Type`.
pub enum BodyKind {
    Form,
    Json,
    Text,
}

/// The reading chosen by the `Content-Type`: form for
/// `application/x-www-form-urlencoded`, then JSON for `application/json`, then
/// text for `text/plain`; form when there is no type or another one.
pub open spec fn body_kind(content_type: Option<Seq<char>>) -> BodyKind {
    match content_type {
        Some(ct) => if contains_text(ct, "application/x-www-form-urlencoded"@) {
            BodyKind::Form
        } else if contains_text(ct, "application/json"@) {
            BodyKind::Json
        } else if contains_text(ct, "text/plain"@) {
            BodyKind::Text
        } else {
            BodyKind::Form
        },
        None => BodyKind::Form,
    }
}

/// What parsing a body gives: too large (over 2 MiB) or not UTF-8 is refused;
/// an empty body is `Empty`; otherwise it is read by its `Content-Type`, and a
/// JSON body that does not parse is refused with the parser's message.
pub open spec fn body_outcome(content_type: Option<Seq<char>>, body: Seq<u8>) -> Result<
    BodyModel,
    BoundaryFault,
> {
    if body.len() > MAX_BODY_BYTES {
        Err(BoundaryFault::BodyTooLarge(body.len()))
    } else if !valid_utf8(body) {
        Err(BoundaryFault::InvalidUtf8)
    } else if body.len() == 0 {
        Ok(BodyModel::Empty)
    } else {
        let text = decode_utf8(body);
        match body_kind(content_type) {
            BodyKind::Form => Ok(BodyModel::Form(form_map(split_on(text, '&')))),
            BodyKind::Json => match json_reading(text) {
                Ok(d) => Ok(BodyModel::Json(d.0)),
                Err(m) => Err(BoundaryFault::InvalidJson(m)),
            },
            BodyKind::Text => Ok(BodyModel::Text(text)),
        }
    }
}

/// `Clone` for `serde_json::Value`: a copy of the document; nothing is stated of it.
pub assume_specification[ <serde_json::Value as Clone>::clone ](v: &serde_json::Value) -> serde_json::Value;

/// A request body, parsed by its `Content-Type`.
#[derive(Debug, Clone)]
pub enum SafeBody {
    /// Form fields (one value per name).
    Form(TextMap),
    /// A JSON document.
    Json(serde_json::Value),
    /// Plain text.
    Text(String),
    /// No body.
    Empty,
}

impl View for SafeBody {
    type V = BodyModel;

    open spec fn view(&self) -> BodyModel {
        match self {
            SafeBody::Form(m) => BodyModel::Form(m@),
            SafeBody::Json(v) => BodyModel::Json(*v),
            SafeBody::Text(t) => BodyModel::Text(t@),
            SafeBody::Empty => BodyModel::Empty,
        }
    }
}

/// Decodes `v[lo..hi]` (see `body_decode`).
fn decode_range(v: &[char], lo: usize, hi: usize) -> (r: String)
    requires
        lo <= hi <= v.len(),
    ensures
        r@ == body_decode(v@.subrange(lo as int, hi as int)),
{
    let ghost whole = v@.subrange(lo as int, hi as int);
    let mut out = String::new();
    let mut i: usize = lo;
    while i < hi
        invariant
            lo <= i <= hi <= v.len(),
            whole == v@.subrange(lo as int, hi as int),
            out@ + body_decode(v@.subrange(i as int, hi as int)) == body_decode(whole),
        decreases hi - i,
    {
        let ghost s = v@.subrange(i as int, hi as int);
        let ghost before = out@;
        let c = v[i];
        assert(s[0] == c);
        if c == '+' {
            assert(s.drop_first() =~= v@.subrange(i + 1, hi as int));
            out.push(' ');
            assert(out@ + body_decode(v@.subrange(i + 1, hi as int)) =~= before + body_decode(s));
            i = i + 1;
        } else if c == '%' {
            let hv: u8 = if hi - i > 1 {
                assert(s[1] == v@[i + 1]);
                match hex_digit(v[i + 1]) {
                    Some(d) => d,
                    None => 0,
                }
            } else {
                0
            };
            let lv: u8 = if hi - i > 2 {
                assert(s[2] == v@[i + 2]);
                match hex_digit(v[i + 2]) {
                    Some(d) => d,
                    None => 0,
                }
            } else {
                0
            };
            let used: usize = if hi - i > 2 {
                3
            } else {
                hi - i
            };
            assert(s.subrange(used as int, s.len() as int) =~= v@.subrange(i + used, hi as int));
            let code: u8 = hv * 16 + lv;
            out.push(code as char);
            assert(out@ + body_decode(v@.subrange(i + used, hi as int)) =~= before + body_decode(s));
            i = i + used;
        } else {
            assert(s.drop_first() =~= v@.subrange(i + 1, hi as int));
            out.push(c);
            assert(out@ + body_decode(v@.subrange(i + 1, hi as int)) =~= before + body_decode(s));
            i = i + 1;
        }
    }
    assert(v@.subrange(hi as int, hi as int) =~= Seq::<char>::empty());
    assert(out@ + Seq::<char>::empty() =~= out@);
    out
}

/// The form fields of a body (see `form_map`).
fn parse_form(text: &str) -> (r: TextMap)
    ensures
        r@ == form_map(split_on(text@, '&')),
{
    let v = str_chars(text);
    let parts = split_chars(v.as_slice(), '&');
    let ghost ps = pieces_view(parts@);
    let mut map = TextMap::new();
    let mut i: usize = 0;
    while i < parts.len()
        invariant
            i <= parts.len(),
            ps == pieces_view(parts@),
            ps == split_on(text@, '&'),
            map@ == form_map(ps.subrange(0, i as int)),
        decreases parts.len() - i,
    {
        let ghost pre = ps.subrange(0, i as int);
        proof {
            assert(ps.subrange(0, i + 1).drop_last() =~= pre);
            assert(ps.subrange(0, i + 1).last() == parts@[i as int]@);
        }
        let pair = &parts[i];
        if pair.len() > 0 {
            let ghost p = pair@;
            let (key, value) = match eq_index(pair.as_slice()) {
                Some(k) => {
                    assert(p.subrange(0, k as int) == pair@.subrange(0, k as int));
                    (decode_range(pair.as_slice(), 0, k), decode_range(pair.as_slice(), k + 1, pair.len()))
                },
                None => {
                    assert(pair@.subrange(0, pair.len() as int) =~= p);
                    assert(pair@.subrange(0, 0) =~= Seq::<char>::empty());
                    (decode_range(pair.as_slice(), 0, pair.len()), decode_range(pair.as_slice(), 0, 0))
                },
            };
            map.insert(key, value);
        }
        i += 1;
    }
    assert(ps.subrange(0, parts.len() as int) =~= ps);
    map
}

impl SafeBody {
    /// Parses a body by its `Content-Type` (`content_type`, lower-cased):
    /// a body over 2 MiB is refused (`BodyTooLarge`), one that is not UTF-8 too
    /// (`InvalidUtf8`); an empty body is `Empty`; form bodies give their
    /// fields, JSON bodies their document (`InvalidJson` when it does not
    /// parse), `text/plain` bodies their text; any other type is read as a form.
    pub fn parse(content_type: Option<&str>, body: &[u8]) -> (r: Result<SafeBody, BoundaryError>)
        ensures
            match body_outcome(opt_str_view(content_type), body@) {
                Ok(m) => r matches Ok(b) && b@ == m,
                Err(f) => r matches Err(e) && e@ == f,
            },
    {
        if body.len() > MAX_BODY_BYTES {
            return Err(BoundaryError::BodyTooLarge(body.len()));
        }
        let text = match utf8_text(body) {
            Some(t) => t,
            None => {
                return Err(BoundaryError::InvalidUtf8);
            },
        };
        if body.len() == 0 {
            return Ok(SafeBody::Empty);
        }
        let kind = match content_type {
            Some(ct) => if contains_str(ct, "application/x-www-form-urlencoded") {
                BodyKind::Form
            } else if contains_str(ct, "application/json") {
                BodyKind::Json
            } else if contains_str(ct, "text/plain") {
                BodyKind::Text
            } else {
                BodyKind::Form
            },
            None => BodyKind::Form,
        };
        match kind {
            BodyKind::Form => Ok(SafeBody::Form(parse_form(text.as_str()))),
            BodyKind::Json => match read_json(text.as_str()) {
                Ok((value, _)) => Ok(SafeBody::Json(value)),
                Err(msg) => Err(BoundaryError::InvalidJson(msg)),
            },
            BodyKind::Text => Ok(SafeBody::Text(text)),
        }
    }

    /// The value of a form field, by name.
    pub fn form_field(&self, name: &str) -> (r: Option<&str>)
        ensures
            opt_str_view(r) == match self@ {
                BodyModel::Form(m) => if m.dom().contains(name@) {
                    Some(m[name@])
                } else {
                    None
                },
                _ => None,
            },
    {
        match self {
            SafeBody::Form(map) => match map.get(name) {
                Some(v) => Some(v.as_str()),
                None => None,
            },
            _ => None,
        }
    }

    /// All form fields (`None` for a body that is no form).
    pub fn form_fields(&self) -> (r: Option<&TextMap>)
        ensures
            match self@ {
                BodyModel::Form(m) => r matches Some(f) && f@ == m,
                _ => r is None,
            },
    {
        match self {
            SafeBody::Form(map) => Some(map),
            _ => None,
        }
    }

    /// The JSON document (`None` for a body that is not JSON).
    pub fn json(&self) -> (r: Option<&serde_json::Value>)
        ensures
            r is Some <==> self@ is Json,
            r matches Some(v) ==> self@ == BodyModel::Json(*v),
    {
        match self {
            SafeBody::Json(v) => Some(v),
            _ => None,
        }
    }

    /// The text of a plain-text body.
    pub fn text(&self) -> (r: Option<&str>)
        ensures
            opt_str_view(r) == match self@ {
                BodyModel::Text(t) => Some(t),
                _ => None,
            },
    {
        match self {
            SafeBody::Text(t) => Some(t.as_str()),
            _ => None,
        }
    }

    /// Whether there was no body.
    pub fn is_empty(&self) -> (b: bool)
        ensures
            b == self@ is Empty,
    {
        match self {
            SafeBody::Empty => true,
            _ => false,
        }
    }
}

} // verus!
