//! Building an `http::Response` from a status, a list of headers and a body,
//! and what the built response holds.
use vstd::prelude::*;
use crate::text::ascii_lower;
use crate::trust_boundary::safe_response::string_pairs_view;

verus! {

/// `http::Response`, held opaquely.
#[verifier::external_type_specification]
#[verifier::external_body]
#[verifier::reject_recursive_types(T)]
pub struct ExResponse<T>(http::Response<T>);

/// `http::response::Builder`, held opaquely.
#[verifier::external_type_specification]
#[verifier::external_body]
pub struct ExResponseBuilder(http::response::Builder);

/// `http::Error`, held opaquely.
#[verifier::external_type_specification]
#[verifier::external_body]
pub struct ExHttpError(http::Error);

/// A char that may stand in a header name (a token char of RFC 7230).
pub open spec fn is_token_char(c: char) -> bool {
    ||| 'a' <= c <= 'z'
    ||| 'A' <= c <= 'Z'
    ||| '0' <= c <= '9'
    ||| c == '!' || c == '#' || c == '$' || c == '%' || c == '&' || c == '\''
    ||| c == '*' || c == '+' || c == '-' || c == '.' || c == '^' || c == '_'
    ||| c == '`' || c == '|' || c == '~'
}

/// A text `http` accepts as a header name: 1 to 65535 token chars.
pub open spec fn header_name_valid(s: Seq<char>) -> bool {
    &&& 1 <= s.len() <= 65535
    &&& forall|i: int| 0 <= i < s.len() ==> is_token_char(#[trigger] s[i])
}

/// A char whose UTF-8 bytes `http` accepts in a header value: a tab, or
/// anything from the space up but DEL.
pub open spec fn is_value_char(c: char) -> bool {
    (c as u32 >= 32 && c as u32 != 127) || c == '\t'
}

/// A text `http` accepts as a header value.
pub open spec fn header_value_valid(s: Seq<char>) -> bool {
    forall|i: int| 0 <= i < s.len() ==> is_value_char(#[trigger] s[i])
}

/// The contents of a header map: each (lower-case) name with its values, in
/// the order they were appended.
pub type HeaderContents = Map<Seq<char>, Seq<Seq<char>>>;

/// The map `m` with `value` appended to the values of `name`.
pub open spec fn map_append(m: HeaderContents, name: Seq<char>, value: Seq<char>) -> HeaderContents {
    m.insert(
        name,
        if m.contains_key(name) {
            m[name].push(value)
        } else {
            seq![value]
        },
    )
}

/// The header map that appending the headers `hs` in order to an empty map gives.
pub open spec fn header_map_of(hs: Seq<(Seq<char>, Seq<char>)>) -> HeaderContents
    decreases hs.len(),
{
    if hs.len() == 0 {
        Map::empty()
    } else {
        map_append(header_map_of(hs.drop_last()), ascii_lower(hs.last().0), hs.last().1)
    }
}

/// Every header of `hs` has a valid name and a valid value.
pub open spec fn headers_valid(hs: Seq<(Seq<char>, Seq<char>)>) -> bool {
    forall|i: int|
        0 <= i < hs.len() ==> header_name_valid(#[trigger] hs[i].0) && header_value_valid(hs[i].1)
}

/// Whether a builder is still in order (no step so far was refused).
pub uninterp spec fn builder_in_order(b: http::response::Builder) -> bool;

/// The status code a builder holds.
pub uninterp spec fn builder_code(b: http::response::Builder) -> u16;

/// The header map a builder holds.
pub uninterp spec fn builder_header_map(b: http::response::Builder) -> HeaderContents;

/// The status code of a response.
pub uninterp spec fn response_code(r: http::Response<String>) -> u16;

/// The header map of a response.
pub uninterp spec fn response_header_map(r: http::Response<String>) -> HeaderContents;

/// The body of a response.
pub uninterp spec fn response_body(r: http::Response<String>) -> Seq<char>;

/// The response `r` has this status code, header map and body.
pub open spec fn sent_as(r: http::Response<String>, code: u16, map: HeaderContents, body: Seq<char>) -> bool {
    &&& response_code(r) == code
    &&& response_header_map(r) == map
    &&& response_body(r) == body
}

/// Calls `http::Response::builder()`: a builder in order, with the default
/// status 200 and no header (`Parts::new`).
#[verifier::external_body]
fn response_builder() -> (r: http::response::Builder)
    ensures
        builder_in_order(r),
        builder_code(r) == 200,
        builder_header_map(r) == HeaderContents::empty(),
{
    http::Response::builder()
}

/// Calls `Builder::status` with a `u16`: `StatusCode::from_u16` accepts
/// 100 to 999 and the status is set; any other code puts the builder out of
/// order. The headers are kept.
#[verifier::external_body]
fn builder_status(b: http::response::Builder, code: u16) -> (r: http::response::Builder)
    ensures
        builder_in_order(r) == (builder_in_order(b) && 100 <= code <= 999),
        builder_in_order(r) ==> builder_code(r) == code && builder_header_map(r) == builder_header_map(b),
{
    b.status(code)
}

/// Calls `Builder::header` with two `&str`: the name (stored in ASCII lower
/// case) and the value are checked, then `HeaderMap::try_append` appends the
/// value to those of the name. A builder out of order stays so. `try_append`
/// refuses only when its table would outgrow 2^15 slots. The table doubles
/// when it is three-quarters full (at 24576 names for 2^15 slots) or, under
/// many hash collisions, when it holds at least a fifth of its slots in names
/// (6554 names for 2^15 slots); so a map with fewer than 6554 names always
/// takes one more, and that bound is what is claimed.
#[verifier::external_body]
fn builder_header(b: http::response::Builder, name: &str, value: &str) -> (r: http::response::Builder)
    ensures
        builder_in_order(r) ==> {
            &&& builder_in_order(b)
            &&& header_name_valid(name@)
            &&& header_value_valid(value@)
            &&& builder_code(r) == builder_code(b)
            &&& builder_header_map(r) == map_append(builder_header_map(b), ascii_lower(name@), value@)
        },
        builder_in_order(b) && header_name_valid(name@) && header_value_valid(value@)
            && builder_header_map(b).dom().finite() && builder_header_map(b).dom().len() < 6554
            ==> builder_in_order(r),
{
    b.header(name, value)
}

/// Calls `Builder::body`: the response with the builder's status and headers
/// and this body, or the error of an earlier step.
#[verifier::external_body]
fn builder_body(b: http::response::Builder, body: String) -> (r: Result<http::Response<String>, http::Error>)
    ensures
        r is Ok <==> builder_in_order(b),
        r matches Ok(x) ==> response_code(x) == builder_code(b) && response_header_map(x)
            == builder_header_map(b) && response_body(x) == body@,
{
    b.body(body)
}

/// A map of appended headers has finitely many names, no more than headers.
pub proof fn lemma_header_map_size(hs: Seq<(Seq<char>, Seq<char>)>)
    ensures
        header_map_of(hs).dom().finite(),
        header_map_of(hs).dom().len() <= hs.len(),
    decreases hs.len(),
{
    if hs.len() > 0 {
        lemma_header_map_size(hs.drop_last());
        let m = header_map_of(hs.drop_last());
        let k = ascii_lower(hs.last().0);
        if m.contains_key(k) {
            assert(m.insert(k, m[k].push(hs.last().1)).dom() =~= m.dom());
        }
    }
}

/// A name that no header of `hs` has (in lower case) is not in their map.
pub proof fn lemma_absent_key(hs: Seq<(Seq<char>, Seq<char>)>, k: Seq<char>)
    requires
        forall|i: int| 0 <= i < hs.len() ==> ascii_lower(#[trigger] hs[i].0) != k,
    ensures
        !header_map_of(hs).contains_key(k),
    decreases hs.len(),
{
    if hs.len() > 0 {
        let t = hs.drop_last();
        assert forall|i: int| 0 <= i < t.len() implies ascii_lower(#[trigger] t[i].0) != k by {
            assert(t[i] == hs[i]);
        }
        lemma_absent_key(t, k);
        assert(hs.last() == hs[hs.len() - 1]);
    }
}

/// Appending more headers keeps the values each name already had, in front.
pub proof fn lemma_header_map_grows(hs: Seq<(Seq<char>, Seq<char>)>, n: int)
    requires
        0 <= n <= hs.len(),
    ensures
        forall|k: Seq<char>|
            #[trigger] header_map_of(hs.subrange(0, n)).contains_key(k) ==> {
                &&& header_map_of(hs).contains_key(k)
                &&& header_map_of(hs.subrange(0, n))[k].len() <= header_map_of(hs)[k].len()
                &&& header_map_of(hs)[k].subrange(0, header_map_of(hs.subrange(0, n))[k].len() as int)
                    == header_map_of(hs.subrange(0, n))[k]
            },
    decreases hs.len(),
{
    if n == hs.len() {
        assert(hs.subrange(0, n) =~= hs);
        assert forall|k: Seq<char>| #[trigger] header_map_of(hs.subrange(0, n)).contains_key(k) implies
            header_map_of(hs)[k].subrange(0, header_map_of(hs.subrange(0, n))[k].len() as int)
                == header_map_of(hs.subrange(0, n))[k] by {
            assert(header_map_of(hs)[k].subrange(0, header_map_of(hs)[k].len() as int) =~= header_map_of(hs)[k]);
        }
    } else {
        let t = hs.drop_last();
        assert(t.subrange(0, n) =~= hs.subrange(0, n));
        lemma_header_map_grows(t, n);
        let m = header_map_of(t);
        let name = ascii_lower(hs.last().0);
        assert forall|k: Seq<char>| #[trigger] header_map_of(hs.subrange(0, n)).contains_key(k) implies {
            &&& header_map_of(hs).contains_key(k)
            &&& header_map_of(hs.subrange(0, n))[k].len() <= header_map_of(hs)[k].len()
            &&& header_map_of(hs)[k].subrange(0, header_map_of(hs.subrange(0, n))[k].len() as int)
                == header_map_of(hs.subrange(0, n))[k]
        } by {
            let p = header_map_of(hs.subrange(0, n))[k];
            assert(m.contains_key(k));
            if k == name {
                assert(header_map_of(hs)[k] == m[k].push(hs.last().1));
                assert(m[k].push(hs.last().1).subrange(0, p.len() as int) =~= m[k].subrange(0, p.len() as int));
            }
        }
    }
}

/// The response with status `code`, the headers `hs` appended in order and
/// `body`, when `http` takes every header; an error otherwise. Success is owed
/// when every header is valid and they have fewer than 6554 distinct names.
pub(crate) fn build_response(code: u16, hs: &Vec<(String, String)>, body: String) -> (r: Result<
    http::Response<String>,
    http::Error,
>)
    requires
        100 <= code <= 999,
    ensures
        r matches Ok(x) ==> sent_as(x, code, header_map_of(string_pairs_view(hs@)), body@),
        r is Ok ==> headers_valid(string_pairs_view(hs@)),
        headers_valid(string_pairs_view(hs@)) && header_map_of(string_pairs_view(hs@)).dom().len() < 6554
            ==> r is Ok,
{
    let ghost ps = string_pairs_view(hs@);
    let mut b = response_builder();
    b = builder_status(b, code);
    let mut i: usize = 0;
    assert(ps.subrange(0, 0) =~= Seq::<(Seq<char>, Seq<char>)>::empty());
    while i < hs.len()
        invariant
            i <= hs.len(),
            ps == string_pairs_view(hs@),
            ps.len() == hs@.len(),
            builder_in_order(b) ==> {
                &&& builder_code(b) == code
                &&& builder_header_map(b) == header_map_of(ps.subrange(0, i as int))
                &&& headers_valid(ps.subrange(0, i as int))
            },
            headers_valid(ps) && header_map_of(ps).dom().len() < 6554 ==> builder_in_order(b),
        decreases hs.len() - i,
    {
        let ghost before = ps.subrange(0, i as int);
        let ghost after = ps.subrange(0, i + 1);
        proof {
            assert(after.drop_last() =~= before);
            assert(after.last() == ps[i as int]);
            assert(ps[i as int] == (hs@[i as int].0@, hs@[i as int].1@));
            lemma_header_map_size(before);
            lemma_header_map_size(ps);
            lemma_header_map_grows(ps, i as int);
            assert(header_map_of(before).dom().subset_of(header_map_of(ps).dom()));
            vstd::set_lib::lemma_len_subset(header_map_of(before).dom(), header_map_of(ps).dom());
            if headers_valid(ps) {
                assert(header_name_valid(ps[i as int].0) && header_value_valid(ps[i as int].1));
            }
        }
        b = builder_header(b, hs[i].0.as_str(), hs[i].1.as_str());
        proof {
            if builder_in_order(b) {
                assert forall|j: int| 0 <= j < after.len() implies header_name_valid(#[trigger] after[j].0)
                    && header_value_valid(after[j].1) by {
                    if j < i {
                        assert(after[j] == before[j]);
                    }
                }
            }
        }
        i += 1;
    }
    assert(ps.subrange(0, hs.len() as int) =~= ps);
    builder_body(b, body)
}

} // verus!
