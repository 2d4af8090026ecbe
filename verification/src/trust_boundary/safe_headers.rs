//! `SafeHeaders`: the request headers, each checked (visible ASCII, no CR/LF,
//! at most 4096 bytes), with the headers the application reads picked out.
use vstd::prelude::*;
use vstd::string::StrSliceExecFns;
use crate::keyed::TextMap;
use crate::text::{all_ascii, ascii_lower, contains_char, has_prefix, lowercase, opt_as_str, opt_str_view, opt_string_view, parse_u64, parse_u64_text, starts_with, str_chars, str_eq, string_from_chars, to_lowercase, trim, trim_bounds};
use super::{BoundaryError, BoundaryFault};

verus! {

/// `http::HeaderMap`, held opaquely; its entries are read through
/// `header_map_entries`.
#[verifier::external_type_specification]
#[verifier::external_body]
#[verifier::reject_recursive_types(T)]
pub struct ExHeaderMap<T>(http::HeaderMap<T>);

/// `http::HeaderValue`, held opaquely (the default value type of a `HeaderMap`).
#[verifier::external_type_specification]
#[verifier::external_body]
pub struct ExHeaderValue(http::HeaderValue);

/// The entries of a header map in its iteration order: each name's text and
/// each value's bytes (a name with several values occurs once per value).
pub uninterp spec fn header_map_entries(h: http::HeaderMap) -> Seq<(Seq<char>, Seq<u8>)>;

/// The plain values of a list of (name, bytes) pairs.
pub open spec fn byte_pairs_view(v: Seq<(String, Vec<u8>)>) -> Seq<(Seq<char>, Seq<u8>)> {
    v.map_values(|e: (String, Vec<u8>)| (e.0@, e.1@))
}

/// `HeaderMap::iter`, with each name as its text (`HeaderName::as_str`) and each
/// value as its bytes (`HeaderValue::as_bytes`). The list is named
/// `header_map_entries(*h)`: iteration order is a function of the map.
#[verifier::external_body]
pub(crate) fn header_map_pairs(h: &http::HeaderMap) -> (r: Vec<(String, Vec<u8>)>)
    ensures
        byte_pairs_view(r@) == header_map_entries(*h),
{
    h.iter().map(|(n, v)| (n.as_str().to_string(), v.as_bytes().to_vec())).collect()
}

/// A byte that a header value may hold as text (`HeaderValue::to_str`):
/// visible ASCII, space, or tab.
pub open spec fn is_visible_byte(b: u8) -> bool {
    (32 <= b && b < 127) || b == 9
}

/// ASCII bytes read as chars.
pub open spec fn ascii_text(bs: Seq<u8>) -> Seq<char> {
    bs.map_values(|b: u8| (b as u32) as char)
}

/// The value of `k` in `m`, if any.
pub open spec fn map_get(m: Map<Seq<char>, Seq<char>>, k: Seq<char>) -> Option<Seq<char>> {
    if m.dom().contains(k) {
        Some(m[k])
    } else {
        None
    }
}

/// The headers as plain values.
pub struct HeadersModel {
    /// Every header by lower-cased name (the last value of a name counts).
    pub raw: Map<Seq<char>, Seq<char>>,
    /// `Content-Type`, lower-cased.
    pub content_type: Option<Seq<char>>,
    /// `Content-Length`, when it is a number.
    pub content_length: Option<u64>,
    pub origin: Option<Seq<char>>,
    pub referer: Option<Seq<char>>,
    pub x_forwarded_for: Option<Seq<char>>,
    pub user_agent: Option<Seq<char>>,
    pub host: Option<Seq<char>>,
}

/// No header at all.
pub open spec fn no_headers() -> HeadersModel {
    HeadersModel {
        raw: Map::empty(),
        content_type: None,
        content_length: None,
        origin: None,
        referer: None,
        x_forwarded_for: None,
        user_agent: None,
        host: None,
    }
}

/// One header read into the model: its name is lower-cased; a value that is
/// not visible ASCII (`InvalidHeader`), holds CR or LF (`HeaderInjection`) or is
/// longer than 4096 bytes (`HeaderTooLong`) refuses the request.
pub open spec fn header_step(m: HeadersModel, raw_name: Seq<char>, value: Seq<u8>) -> Result<
    HeadersModel,
    BoundaryFault,
> {
    let name = lowercase(raw_name);
    let v = ascii_text(value);
    if !(forall|i: int| 0 <= i < value.len() ==> is_visible_byte(#[trigger] value[i])) {
        Err(BoundaryFault::InvalidHeader(name))
    } else if v.contains('\r') || v.contains('\n') {
        Err(BoundaryFault::HeaderInjection(name))
    } else if value.len() > 4096 {
        Err(BoundaryFault::HeaderTooLong(name))
    } else {
        Ok(
            HeadersModel {
                raw: m.raw.insert(name, v),
                content_type: if name == "content-type"@ {
                    Some(lowercase(v))
                } else {
                    m.content_type
                },
                content_length: if name == "content-length"@ {
                    parse_u64(v)
                } else {
                    m.content_length
                },
                origin: if name == "origin"@ {
                    Some(v)
                } else {
                    m.origin
                },
                referer: if name == "referer"@ {
                    Some(v)
                } else {
                    m.referer
                },
                x_forwarded_for: if name == "x-forwarded-for"@ {
                    Some(v)
                } else {
                    m.x_forwarded_for
                },
                user_agent: if name == "user-agent"@ {
                    Some(v)
                } else {
                    m.user_agent
                },
                host: if name == "host"@ {
                    Some(v)
                } else {
                    m.host
                },
            },
        )
    }
}

/// What reading a list of headers gives: the fault of the first bad header,
/// or the model of all of them.
pub open spec fn headers_outcome(es: Seq<(Seq<char>, Seq<u8>)>) -> Result<HeadersModel, BoundaryFault>
    decreases es.len(),
{
    if es.len() == 0 {
        Ok(no_headers())
    } else {
        match headers_outcome(es.drop_last()) {
            Err(f) => Err(f),
            Ok(m) => header_step(m, es.last().0, es.last().1),
        }
    }
}

/// An origin of the local development server (`http://localhost`, with or
/// without a port, over HTTP or HTTPS); `localhost.evil.com` is none.
pub open spec fn is_local_origin(o: Seq<char>) -> bool {
    ||| o == "http://localhost"@
    ||| o == "https://localhost"@
    ||| has_prefix(o, "http://localhost:"@)
    ||| has_prefix(o, "https://localhost:"@)
}

/// The CSRF check: the `Origin` is the site or local, or else the `Referer`
/// starts with the site or is local.
pub open spec fn csrf_ok(m: HeadersModel, site_url: Seq<char>) -> bool {
    ||| (m.origin matches Some(o) && (o == site_url || is_local_origin(o)))
    ||| (m.referer matches Some(r) && (has_prefix(r, site_url) || is_local_origin(r)))
}

/// The chars of `s` before the first `c` (all of them when there is none).
pub open spec fn before_char(s: Seq<char>, c: char) -> Seq<char>
    decreases s.len(),
{
    if s.len() == 0 {
        s
    } else if s[0] == c {
        Seq::empty()
    } else {
        seq![s[0]] + before_char(s.drop_first(), c)
    }
}

/// The client address in an `X-Forwarded-For` value: its first entry, trimmed.
pub open spec fn first_forwarded(xff: Seq<char>) -> Seq<char> {
    trim(before_char(xff, ','))
}

proof fn lemma_before_char_at(s: Seq<char>, c: char, k: int)
    requires
        0 <= k <= s.len(),
        forall|j: int| 0 <= j < k ==> #[trigger] s[j] != c,
        k == s.len() || s[k] == c,
    ensures
        before_char(s, c) == s.subrange(0, k),
    decreases k,
{
    if k == 0 {
        assert(s.subrange(0, 0) =~= Seq::<char>::empty());
    } else {
        let t = s.drop_first();
        assert forall|j: int| 0 <= j < k - 1 implies #[trigger] t[j] != c by {
            assert(t[j] == s[j + 1]);
        }
        if k < s.len() {
            assert(t[k - 1] == s[k]);
        }
        lemma_before_char_at(t, c, k - 1);
        assert(seq![s[0]] + t.subrange(0, k - 1) =~= s.subrange(0, k));
    }
}

/// The validated headers of a request.
#[derive(Debug, Clone)]
pub struct SafeHeaders {
    raw: TextMap,
    content_type: Option<String>,
    content_length: Option<u64>,
    origin: Option<String>,
    referer: Option<String>,
    x_forwarded_for: Option<String>,
    user_agent: Option<String>,
    host: Option<String>,
}

impl View for SafeHeaders {
    type V = HeadersModel;

    closed spec fn view(&self) -> HeadersModel {
        HeadersModel {
            raw: self.raw@,
            content_type: opt_string_view(self.content_type),
            content_length: self.content_length,
            origin: opt_string_view(self.origin),
            referer: opt_string_view(self.referer),
            x_forwarded_for: opt_string_view(self.x_forwarded_for),
            user_agent: opt_string_view(self.user_agent),
            host: opt_string_view(self.host),
        }
    }
}

/// A refusal in the first headers refuses the whole list.
proof fn lemma_outcome_err_prefix(es: Seq<(Seq<char>, Seq<u8>)>, n: int)
    requires
        0 <= n <= es.len(),
        headers_outcome(es.subrange(0, n)) is Err,
    ensures
        headers_outcome(es) == headers_outcome(es.subrange(0, n)),
    decreases es.len(),
{
    if n == es.len() {
        assert(es.subrange(0, n) =~= es);
    } else {
        let t = es.drop_last();
        assert(t.subrange(0, n) =~= es.subrange(0, n));
        lemma_outcome_err_prefix(t, n);
    }
}

/// Reads the bytes of a header value as text when they are all visible ASCII.
fn visible_text(bs: &Vec<u8>) -> (r: Option<Vec<char>>)
    ensures
        match r {
            Some(v) => (forall|i: int| 0 <= i < bs@.len() ==> is_visible_byte(#[trigger] bs@[i]))
                && v@ == ascii_text(bs@),
            None => !(forall|i: int| 0 <= i < bs@.len() ==> is_visible_byte(#[trigger] bs@[i])),
        },
{
    let mut out: Vec<char> = Vec::new();
    let mut i: usize = 0;
    while i < bs.len()
        invariant
            i <= bs.len(),
            forall|j: int| 0 <= j < i ==> is_visible_byte(#[trigger] bs@[j]),
            out@ == ascii_text(bs@.subrange(0, i as int)),
        decreases bs.len() - i,
    {
        let b = bs[i];
        if !((32 <= b && b < 127) || b == 9) {
            return None;
        }
        out.push(b as char);
        i += 1;
        assert(out@ =~= ascii_text(bs@.subrange(0, i as int)));
    }
    assert(bs@.subrange(0, bs.len() as int) =~= bs@);
    Some(out)
}

impl SafeHeaders {
    /// No header.
    pub fn empty() -> (r: SafeHeaders)
        ensures
            r@ == no_headers(),
    {
        SafeHeaders {
            raw: TextMap::new(),
            content_type: None,
            content_length: None,
            origin: None,
            referer: None,
            x_forwarded_for: None,
            user_agent: None,
            host: None,
        }
    }

    /// Reads headers given as (name, value bytes) pairs, in order. Each name is
    /// lower-cased; the first value that is not visible ASCII, holds `\r` or
    /// `\n`, or is longer than 4096 bytes refuses them all (`InvalidHeader`,
    /// `HeaderInjection`, `HeaderTooLong`, with the name). The last value of a
    /// name counts.
    pub fn parse_entries(entries: &[(String, Vec<u8>)]) -> (r: Result<SafeHeaders, BoundaryError>)
        ensures
            match headers_outcome(byte_pairs_view(entries@)) {
                Ok(m) => r matches Ok(h) && h@ == m,
                Err(f) => r matches Err(e) && e@ == f,
            },
    {
        let ghost es = byte_pairs_view(entries@);
        let mut h = SafeHeaders::empty();
        let mut i: usize = 0;
        assert(es.subrange(0, 0) =~= Seq::<(Seq<char>, Seq<u8>)>::empty());
        while i < entries.len()
            invariant
                i <= entries.len(),
                es == byte_pairs_view(entries@),
                headers_outcome(es.subrange(0, i as int)) == Ok::<HeadersModel, BoundaryFault>(h@),
            decreases entries.len() - i,
        {
            let ghost pre = es.subrange(0, i as int);
            let ghost m = h@;
            proof {
                assert(es.subrange(0, i + 1).drop_last() =~= pre);
                assert(es.subrange(0, i + 1).last() == es[i as int]);
                assert(es[i as int] == (entries@[i as int].0@, entries@[i as int].1@));
            }
            let name = to_lowercase(entries[i].0.as_str());
            let bytes = &entries[i].1;
            let text = match visible_text(bytes) {
                Some(t) => t,
                None => {
                    proof {
                        lemma_outcome_err_prefix(es, i + 1);
                    }
                    return Err(BoundaryError::InvalidHeader(name));
                },
            };
            if contains_char(text.as_slice(), '\r') || contains_char(text.as_slice(), '\n') {
                proof {
                    lemma_outcome_err_prefix(es, i + 1);
                }
                return Err(BoundaryError::HeaderInjection(name));
            }
            if bytes.len() > 4096 {
                proof {
                    lemma_outcome_err_prefix(es, i + 1);
                }
                return Err(BoundaryError::HeaderTooLong(name));
            }
            let value = string_from_chars(text.as_slice());
            let n = name.as_str();
            if str_eq(n, "content-type") {
                h.content_type = Some(to_lowercase(value.as_str()));
            }
            if str_eq(n, "content-length") {
                h.content_length = parse_u64_text(value.as_str());
            }
            if str_eq(n, "origin") {
                h.origin = Some(value.clone());
            }
            if str_eq(n, "referer") {
                h.referer = Some(value.clone());
            }
            if str_eq(n, "x-forwarded-for") {
                h.x_forwarded_for = Some(value.clone());
            }
            if str_eq(n, "user-agent") {
                h.user_agent = Some(value.clone());
            }
            if str_eq(n, "host") {
                h.host = Some(value.clone());
            }
            h.raw.insert(name, value);
            i += 1;
        }
        assert(es.subrange(0, entries.len() as int) =~= es);
        Ok(h)
    }

    /// Reads the headers of a `HeaderMap` (see `parse_entries`).
    pub fn parse(headers: &http::HeaderMap) -> (r: Result<SafeHeaders, BoundaryError>)
        ensures
            match headers_outcome(header_map_entries(*headers)) {
                Ok(m) => r matches Ok(h) && h@ == m,
                Err(f) => r matches Err(e) && e@ == f,
            },
    {
        let entries = header_map_pairs(headers);
        SafeHeaders::parse_entries(entries.as_slice())
    }

    /// The value of a header, by name in any case.
    pub fn get(&self, name: &str) -> (r: Option<&str>)
        ensures
            opt_str_view(r) == map_get(self@.raw, lowercase(name@)),
            all_ascii(name@) ==> opt_str_view(r) == map_get(self@.raw, ascii_lower(name@)),
    {
        let key = to_lowercase(name);
        match self.raw.get(key.as_str()) {
            Some(v) => Some(v.as_str()),
            None => None,
        }
    }

    /// `Content-Type`, lower-cased.
    pub fn content_type(&self) -> (r: Option<&str>)
        ensures
            opt_str_view(r) == self@.content_type,
    {
        opt_as_str(&self.content_type)
    }

    /// `Content-Length`, when it is a number.
    pub fn content_length(&self) -> (r: Option<u64>)
        ensures
            r == self@.content_length,
    {
        self.content_length
    }

    /// `Origin`.
    pub fn origin(&self) -> (r: Option<&str>)
        ensures
            opt_str_view(r) == self@.origin,
    {
        opt_as_str(&self.origin)
    }

    /// `Referer`.
    pub fn referer(&self) -> (r: Option<&str>)
        ensures
            opt_str_view(r) == self@.referer,
    {
        opt_as_str(&self.referer)
    }

    /// The client's address: the first entry of `X-Forwarded-For`, trimmed.
    pub fn client_ip(&self) -> (r: Option<&str>)
        ensures
            opt_str_view(r) == match self@.x_forwarded_for {
                Some(x) => Some(first_forwarded(x)),
                None => None,
            },
    {
        match &self.x_forwarded_for {
            None => None,
            Some(x) => {
                let v = str_chars(x.as_str());
                let mut k: usize = 0;
                while k < v.len() && v[k] != ','
                    invariant
                        k <= v.len(),
                        v@ == x@,
                        forall|j: int| 0 <= j < k ==> #[trigger] v@[j] != ',',
                    decreases v.len() - k,
                {
                    k += 1;
                }
                proof {
                    lemma_before_char_at(x@, ',', k as int);
                }
                let (lo, hi) = trim_bounds(&v.as_slice()[0..k]);
                Some(x.as_str().substring_char(lo, hi))
            },
        }
    }

    /// `User-Agent`.
    pub fn user_agent(&self) -> (r: Option<&str>)
        ensures
            opt_str_view(r) == self@.user_agent,
    {
        opt_as_str(&self.user_agent)
    }

    /// `Host`.
    pub fn host(&self) -> (r: Option<&str>)
        ensures
            opt_str_view(r) == self@.host,
    {
        opt_as_str(&self.host)
    }

    /// The CSRF check against the site's URL: an `Origin` equal to it, or a
    /// `Referer` that starts with it, passes; so does a local origin
    /// (`http://localhost` or `https://localhost`, alone or with a port).
    pub fn verify_csrf(&self, site_url: &str) -> (b: bool)
        ensures
            b == csrf_ok(self@, site_url@),
    {
        match &self.origin {
            Some(o) => {
                let o = o.as_str();
                if str_eq(o, site_url) || is_local(o) {
                    return true;
                }
            },
            None => {},
        }
        match &self.referer {
            Some(r) => {
                let r = r.as_str();
                if starts_with(r, site_url) || is_local(r) {
                    return true;
                }
            },
            None => {},
        }
        false
    }
}

fn is_local(o: &str) -> (b: bool)
    ensures
        b == is_local_origin(o@),
{
    str_eq(o, "http://localhost") || str_eq(o, "https://localhost") || starts_with(
        o,
        "http://localhost:",
    ) || starts_with(o, "https://localhost:")
}


/// A header value as the boundary keeps it: tabs and visible ASCII only (so
/// no CR or LF), at most 4096 chars.
pub open spec fn clean_header_value(v: Seq<char>) -> bool {
    &&& v.len() <= 4096
    &&& forall|j: int| 0 <= j < v.len() ==> ((' ' <= #[trigger] v[j] && v[j] <= '~') || v[j] == '\t')
}

/// Every header that reading keeps is clean: visible ASCII or tabs, no CR or
/// LF, at most 4096 bytes; so is each of the headers it picks out.
pub proof fn lemma_accepted_headers_clean(es: Seq<(Seq<char>, Seq<u8>)>)
    requires
        headers_outcome(es) is Ok,
    ensures
        forall|k: Seq<char>|
            #[trigger] headers_outcome(es)->Ok_0.raw.dom().contains(k) ==> clean_header_value(
                headers_outcome(es)->Ok_0.raw[k],
            ),
        headers_outcome(es)->Ok_0.origin matches Some(o) ==> clean_header_value(o),
        headers_outcome(es)->Ok_0.referer matches Some(r) ==> clean_header_value(r),
        headers_outcome(es)->Ok_0.host matches Some(h) ==> clean_header_value(h),
        headers_outcome(es)->Ok_0.user_agent matches Some(u) ==> clean_header_value(u),
        headers_outcome(es)->Ok_0.x_forwarded_for matches Some(x) ==> clean_header_value(x),
    decreases es.len(),
{
    if es.len() > 0 {
        let prev = es.drop_last();
        lemma_accepted_headers_clean(prev);
        let value = es.last().1;
        let v = ascii_text(value);
        assert forall|j: int| 0 <= j < v.len() implies ((' ' <= #[trigger] v[j] && v[j] <= '~')
            || v[j] == '\t') by {
            assert(is_visible_byte(value[j]));
            assert(v[j] == (value[j] as u32) as char);
        }
        assert(clean_header_value(v));
    }
}


/// The value of the last header of `es` whose lower-cased name is `name`.
pub open spec fn last_value_named(es: Seq<(Seq<char>, Seq<u8>)>, name: Seq<char>) -> Option<Seq<char>>
    decreases es.len(),
{
    if es.len() == 0 {
        None
    } else if lowercase(es.last().0) == name {
        Some(ascii_text(es.last().1))
    } else {
        last_value_named(es.drop_last(), name)
    }
}

/// The `Content-Type` that reading headers keeps is the lower case of the
/// value of the last header named `Content-Type` (in any case), and there is
/// none when no header has that name; likewise every header is kept under its
/// lower-cased name with the value of the last header of that name.
pub proof fn lemma_content_type_is_last(es: Seq<(Seq<char>, Seq<u8>)>)
    requires
        headers_outcome(es) is Ok,
    ensures
        headers_outcome(es)->Ok_0.content_type == match last_value_named(es, "content-type"@) {
            Some(v) => Some(lowercase(v)),
            None => None::<Seq<char>>,
        },
        forall|k: Seq<char>|
            #[trigger] map_get(headers_outcome(es)->Ok_0.raw, k) == last_value_named(es, k),
    decreases es.len(),
{
    if es.len() > 0 {
        lemma_content_type_is_last(es.drop_last());
        let m = headers_outcome(es.drop_last())->Ok_0;
        let n = lowercase(es.last().0);
        assert forall|k: Seq<char>|
            #[trigger] map_get(headers_outcome(es)->Ok_0.raw, k) == last_value_named(es, k) by {
            assert(map_get(m.raw, k) == last_value_named(es.drop_last(), k));
        }
    }
}

} // verus!
