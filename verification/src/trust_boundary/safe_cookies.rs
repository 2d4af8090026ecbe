//! `SafeCookies`: the `Cookie` header split into validated name/value pairs,
//! with the cookies the application uses picked out.
use vstd::prelude::*;
use vstd::utf8::encode_utf8;
use crate::input_types::parser::{eq_index, eq_pos, pieces_view, split_chars, split_on};
use crate::text::{
    contains_char, opt_as_str, opt_str_view, opt_string_view, str_chars, str_eq, trim, trim_bounds,
    string_from_range,
};
use super::{BoundaryError, BoundaryFault};

verus! {

/// The name and value of one `;`-separated part: both trimmed, split at the
/// first `=`; a part without `=` is no cookie.
pub open spec fn cookie_pair(part: Seq<char>) -> Option<(Seq<char>, Seq<char>)> {
    let t = trim(part);
    match eq_pos(t) {
        Some(k) => Some((trim(t.subrange(0, k)), trim(t.subrange(k + 1, t.len() as int)))),
        None => None,
    }
}

/// The cookies of a list of parts, in order.
pub open spec fn cookie_pairs(parts: Seq<Seq<char>>) -> Seq<(Seq<char>, Seq<char>)>
    decreases parts.len(),
{
    if parts.len() == 0 {
        Seq::empty()
    } else {
        let r = cookie_pairs(parts.drop_last());
        match cookie_pair(parts.last()) {
            Some(p) => r.push(p),
            None => r,
        }
    }
}

/// The cookies of an optional `Cookie` header.
pub open spec fn header_cookies(header: Option<Seq<char>>) -> Seq<(Seq<char>, Seq<char>)> {
    match header {
        Some(h) => cookie_pairs(split_on(h, ';')),
        None => Seq::empty(),
    }
}

/// What is wrong with one cookie, if anything: a value longer than 256 bytes,
/// or one that holds `;`, `,` or a space.
pub open spec fn cookie_fault(c: (Seq<char>, Seq<char>)) -> Option<BoundaryFault> {
    if encode_utf8(c.1).len() > 256 {
        Some(BoundaryFault::CookieTooLong(c.0))
    } else if c.1.contains(';') || c.1.contains(',') || c.1.contains(' ') {
        Some(BoundaryFault::InvalidCookieValue(c.0))
    } else {
        None
    }
}

/// The fault of the first faulty cookie.
pub open spec fn first_cookie_fault(cs: Seq<(Seq<char>, Seq<char>)>) -> Option<BoundaryFault>
    decreases cs.len(),
{
    if cs.len() == 0 {
        None
    } else {
        match first_cookie_fault(cs.drop_last()) {
            Some(f) => Some(f),
            None => cookie_fault(cs.last()),
        }
    }
}

/// The value of the last cookie whose name satisfies `p`.
pub open spec fn last_value_where(
    cs: Seq<(Seq<char>, Seq<char>)>,
    p: spec_fn(Seq<char>) -> bool,
) -> Option<Seq<char>>
    decreases cs.len(),
{
    if cs.len() == 0 {
        None
    } else if p(cs.last().0) {
        Some(cs.last().1)
    } else {
        last_value_where(cs.drop_last(), p)
    }
}

/// The cookies as plain values.
pub struct CookiesModel {
    /// The authentication token (cookie `token`).
    pub token: Option<Seq<char>>,
    /// The anonymous session (cookie `session_id` or `session-id`).
    pub session_id: Option<Seq<char>>,
    /// The CSRF token (cookie `csrf_token`).
    pub csrf_token: Option<Seq<char>>,
    /// Every cookie, in order.
    pub raw: Seq<(Seq<char>, Seq<char>)>,
}

/// The cookies that a list of valid pairs gives: the last value of each name counts.
pub open spec fn cookies_model(cs: Seq<(Seq<char>, Seq<char>)>) -> CookiesModel {
    CookiesModel {
        token: last_value_where(cs, |n: Seq<char>| n == "token"@),
        session_id: last_value_where(cs, |n: Seq<char>| n == "session_id"@ || n == "session-id"@),
        csrf_token: last_value_where(cs, |n: Seq<char>| n == "csrf_token"@),
        raw: cs,
    }
}

/// What parsing a `Cookie` header gives: the fault of the first faulty cookie,
/// or all of them.
pub open spec fn cookies_outcome(header: Option<Seq<char>>) -> Result<CookiesModel, BoundaryFault> {
    let cs = header_cookies(header);
    match first_cookie_fault(cs) {
        Some(f) => Err(f),
        None => Ok(cookies_model(cs)),
    }
}

/// The cookies of a request, validated.
#[derive(Debug, Clone)]
pub struct SafeCookies {
    token: Option<String>,
    session_id: Option<String>,
    csrf_token: Option<String>,
    raw: Vec<(String, String)>,
}

/// The plain values of a list of string pairs.
pub open spec fn pairs_view(v: Seq<(String, String)>) -> Seq<(Seq<char>, Seq<char>)> {
    v.map_values(|e: (String, String)| (e.0@, e.1@))
}

impl View for SafeCookies {
    type V = CookiesModel;

    closed spec fn view(&self) -> CookiesModel {
        CookiesModel {
            token: opt_string_view(self.token),
            session_id: opt_string_view(self.session_id),
            csrf_token: opt_string_view(self.csrf_token),
            raw: pairs_view(self.raw@),
        }
    }
}

/// The trimmed chars of `v[lo..hi]`, as a `String`.
fn trim_range(v: &[char], lo: usize, hi: usize) -> (r: String)
    requires
        lo <= hi <= v.len(),
    ensures
        r@ == trim(v@.subrange(lo as int, hi as int)),
{
    let mut part: Vec<char> = Vec::new();
    let mut i: usize = lo;
    while i < hi
        invariant
            lo <= i <= hi <= v.len(),
            part@ == v@.subrange(lo as int, i as int),
        decreases hi - i,
    {
        part.push(v[i]);
        i += 1;
        assert(part@ =~= v@.subrange(lo as int, i as int));
    }
    let (a, b) = trim_bounds(part.as_slice());
    string_from_range(part.as_slice(), a, b)
}

/// The cookie of one part, if it has `=`.
fn parse_pair(part: &Vec<char>) -> (r: Option<(String, String)>)
    ensures
        match cookie_pair(part@) {
            Some(c) => r matches Some(p) && p.0@ == c.0 && p.1@ == c.1,
            None => r is None,
        },
{
    let (a, b) = trim_bounds(part.as_slice());
    let mut t: Vec<char> = Vec::new();
    let mut i: usize = a;
    while i < b
        invariant
            a <= i <= b <= part.len(),
            t@ == part@.subrange(a as int, i as int),
        decreases b - i,
    {
        t.push(part[i]);
        i += 1;
        assert(t@ =~= part@.subrange(a as int, i as int));
    }
    assert(t@ == trim(part@));
    match eq_index(t.as_slice()) {
        Some(k) => {
            let name = trim_range(t.as_slice(), 0, k);
            let value = trim_range(t.as_slice(), k + 1, t.len());
            Some((name, value))
        },
        None => None,
    }
}

/// Whether a name is that of the session cookie.
fn is_session_name(n: &str) -> (b: bool)
    ensures
        b == (n@ == "session_id"@ || n@ == "session-id"@),
{
    str_eq(n, "session_id") || str_eq(n, "session-id")
}

impl SafeCookies {
    /// Parses the `Cookie` header (`None` when the request has none): parts
    /// are separated by `;`, each `name=value` is trimmed, parts without `=`
    /// are skipped. The first cookie whose value is longer than 256 bytes, or
    /// holds `;`, `,` or a space, refuses the header (`CookieTooLong`,
    /// `InvalidCookieValue`, with its name). The last `token`, `session_id` (or
    /// `session-id`) and `csrf_token` are picked out.
    pub fn parse_from_header(cookie_header: Option<&str>) -> (r: Result<SafeCookies, BoundaryError>)
        ensures
            match cookies_outcome(opt_str_view(cookie_header)) {
                Ok(m) => r matches Ok(c) && c@ == m,
                Err(f) => r matches Err(e) && e@ == f,
            },
    {
        let mut raw: Vec<(String, String)> = Vec::new();
        let mut token: Option<String> = None;
        let mut session_id: Option<String> = None;
        let mut csrf_token: Option<String> = None;
        let ghost cs = header_cookies(opt_str_view(cookie_header));
        match cookie_header {
            None => {},
            Some(header) => {
                let hv = str_chars(header);
                let parts = split_chars(hv.as_slice(), ';');
                let ghost ps = pieces_view(parts@);
                let mut i: usize = 0;
                while i < parts.len()
                    invariant
                        i <= parts.len(),
                        ps == pieces_view(parts@),
                        ps == split_on(header@, ';'),
                        cs == cookie_pairs(ps),
                        cs == header_cookies(opt_str_view(cookie_header)),
                        pairs_view(raw@) == cookie_pairs(ps.subrange(0, i as int)),
                        first_cookie_fault(pairs_view(raw@)) is None,
                        opt_string_view(token) == cookies_model(pairs_view(raw@)).token,
                        opt_string_view(session_id) == cookies_model(pairs_view(raw@)).session_id,
                        opt_string_view(csrf_token) == cookies_model(pairs_view(raw@)).csrf_token,
                    decreases parts.len() - i,
                {
                    let ghost pre = ps.subrange(0, i as int);
                    proof {
                        assert(ps.subrange(0, i + 1).drop_last() =~= pre);
                        assert(ps.subrange(0, i + 1).last() == parts@[i as int]@);
                    }
                    match parse_pair(&parts[i]) {
                        None => {},
                        Some(pair) => {
                            let ghost before = pairs_view(raw@);
                            let ghost c = (pair.0@, pair.1@);
                            let ghost cs2 = before.push(c);
                            proof {
                                assert(cs2.drop_last() =~= before);
                                assert(cs2.last() == c);
                                assert(cs2 == cookie_pairs(ps.subrange(0, i + 1)));
                                lemma_cookie_pairs_prefix(ps, i + 1);
                            }
                            let value_len = pair.1.as_str().as_bytes().len();
                            if value_len > 256 {
                                proof {
                                    lemma_fault_prefix(cs, cs2);
                                }
                                return Err(BoundaryError::CookieTooLong(pair.0));
                            }
                            let vv = str_chars(pair.1.as_str());
                            if contains_char(vv.as_slice(), ';') || contains_char(vv.as_slice(), ',')
                                || contains_char(vv.as_slice(), ' ') {
                                proof {
                                    lemma_fault_prefix(cs, cs2);
                                }
                                return Err(BoundaryError::InvalidCookieValue(pair.0));
                            }
                            if str_eq(pair.0.as_str(), "token") {
                                token = Some(pair.1.clone());
                            }
                            if is_session_name(pair.0.as_str()) {
                                session_id = Some(pair.1.clone());
                            }
                            if str_eq(pair.0.as_str(), "csrf_token") {
                                csrf_token = Some(pair.1.clone());
                            }
                            raw.push(pair);
                            proof {
                                assert(pairs_view(raw@) =~= cs2);
                            }
                        },
                    }
                    i += 1;
                }
                proof {
                    assert(ps.subrange(0, parts.len() as int) =~= ps);
                }
            },
        }
        proof {
            assert(pairs_view(raw@) == cs);
        }
        Ok(SafeCookies { token, session_id, csrf_token, raw })
    }

    /// No cookie at all.
    pub fn empty() -> (r: SafeCookies)
        ensures
            r@ == cookies_model(Seq::empty()),
    {
        let r = SafeCookies { token: None, session_id: None, csrf_token: None, raw: Vec::new() };
        assert(pairs_view(r.raw@) =~= Seq::<(Seq<char>, Seq<char>)>::empty());
        r
    }

    /// The authentication token.
    pub fn token(&self) -> (r: Option<&str>)
        ensures
            opt_str_view(r) == self@.token,
    {
        opt_as_str(&self.token)
    }

    /// The anonymous session id.
    pub fn session_id(&self) -> (r: Option<&str>)
        ensures
            opt_str_view(r) == self@.session_id,
    {
        opt_as_str(&self.session_id)
    }

    /// The CSRF token.
    pub fn csrf_token(&self) -> (r: Option<&str>)
        ensures
            opt_str_view(r) == self@.csrf_token,
    {
        opt_as_str(&self.csrf_token)
    }

    /// Whether a cookie named `name` was sent.
    pub fn has(&self, name: &str) -> (b: bool)
        ensures
            b == exists|i: int| 0 <= i < self@.raw.len() && (#[trigger] self@.raw[i]).0 == name@,
    {
        let mut i: usize = 0;
        while i < self.raw.len()
            invariant
                i <= self.raw.len(),
                pairs_view(self.raw@) == self@.raw,
                forall|j: int| 0 <= j < i ==> (#[trigger] self@.raw[j]).0 != name@,
            decreases self.raw.len() - i,
        {
            assert(self@.raw[i as int].0 == self.raw@[i as int].0@);
            if str_eq(self.raw[i].0.as_str(), name) {
                return true;
            }
            i += 1;
        }
        false
    }

    /// Every cookie, in order.
    pub fn all(&self) -> (r: &[(String, String)])
        ensures
            pairs_view(r@) == self@.raw,
    {
        self.raw.as_slice()
    }

    /// Number of cookies.
    pub fn len(&self) -> (n: usize)
        ensures
            n == self@.raw.len(),
    {
        self.raw.len()
    }

    /// Whether the request carries an authentication token.
    pub fn is_authenticated(&self) -> (b: bool)
        ensures
            b == self@.token is Some,
    {
        self.token.is_some()
    }
}

/// The cookies of the first `n` parts come first among the cookies of all parts.
proof fn lemma_cookie_pairs_prefix(ps: Seq<Seq<char>>, n: int)
    requires
        0 <= n <= ps.len(),
    ensures
        cookie_pairs(ps.subrange(0, n)).len() <= cookie_pairs(ps).len(),
        cookie_pairs(ps).subrange(0, cookie_pairs(ps.subrange(0, n)).len() as int) == cookie_pairs(
            ps.subrange(0, n),
        ),
    decreases ps.len(),
{
    if n == ps.len() {
        assert(ps.subrange(0, n) =~= ps);
        assert(cookie_pairs(ps).subrange(0, cookie_pairs(ps).len() as int) =~= cookie_pairs(ps));
    } else {
        let t = ps.drop_last();
        assert(t.subrange(0, n) =~= ps.subrange(0, n));
        lemma_cookie_pairs_prefix(t, n);
        let a = cookie_pairs(ps.subrange(0, n));
        let b = cookie_pairs(t);
        assert(cookie_pairs(ps).subrange(0, a.len() as int) =~= b.subrange(0, a.len() as int));
    }
}

/// A fault in a prefix of the cookies is the first fault of all of them.
proof fn lemma_fault_prefix(cs: Seq<(Seq<char>, Seq<char>)>, pre: Seq<(Seq<char>, Seq<char>)>)
    requires
        first_cookie_fault(pre) is Some,
        pre.len() <= cs.len(),
        cs.subrange(0, pre.len() as int) == pre,
    ensures
        first_cookie_fault(cs) == first_cookie_fault(pre),
    decreases cs.len(),
{
    if cs.len() > pre.len() {
        let t = cs.drop_last();
        assert(t.subrange(0, pre.len() as int) =~= pre);
        lemma_fault_prefix(t, pre);
    } else {
        assert(cs =~= pre);
    }
}


proof fn lemma_no_fault_each(cs: Seq<(Seq<char>, Seq<char>)>)
    requires
        first_cookie_fault(cs) is None,
    ensures
        forall|i: int| 0 <= i < cs.len() ==> cookie_fault(#[trigger] cs[i]) is None,
    decreases cs.len(),
{
    if cs.len() > 0 {
        lemma_no_fault_each(cs.drop_last());
        assert forall|i: int| 0 <= i < cs.len() implies cookie_fault(#[trigger] cs[i]) is None by {
            if i < cs.len() - 1 {
                assert(cs[i] == cs.drop_last()[i]);
            }
        }
    }
}

/// Every cookie that parsing accepts has a value of at most 256 bytes without
/// `;`, `,` or a space.
pub proof fn lemma_accepted_cookies_valid(header: Option<Seq<char>>)
    requires
        cookies_outcome(header) is Ok,
    ensures
        forall|i: int|
            0 <= i < cookies_outcome(header)->Ok_0.raw.len() ==> {
                let v = (#[trigger] cookies_outcome(header)->Ok_0.raw[i]).1;
                &&& encode_utf8(v).len() <= 256
                &&& !v.contains(';') && !v.contains(',') && !v.contains(' ')
            },
{
    lemma_no_fault_each(header_cookies(header));
}

} // verus!
