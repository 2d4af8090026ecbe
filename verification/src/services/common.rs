//! What the services share: paging, `LIKE` patterns and empty JSON objects.
use vstd::prelude::*;
use crate::text::concat3;
use crate::trust_boundary::safe_response::json_display;

verus! {

/// `serde_json::Value::Object(serde_json::Map::new())`: an empty JSON object,
/// whose text (`Display`) is `{}`.
#[verifier::external_body]
pub(crate) fn empty_json_object() -> (r: serde_json::Value)
    ensures
        json_display(r) == "{}"@,
{
    serde_json::Value::Object(serde_json::Map::new())
}

/// The given JSON value, or an empty object.
pub fn json_or_empty(v: Option<serde_json::Value>) -> (r: serde_json::Value)
    ensures
        v matches Some(x) ==> r == x,
        v is None ==> json_display(r) == "{}"@,
{
    match v {
        Some(x) => x,
        None => empty_json_object(),
    }
}

/// The offset of a page (pages count from 1): `(page - 1) * per_page`;
/// `None` where that overflows.
pub fn page_offset(page: i64, per_page: i64) -> (r: Option<i64>)
    ensures
        (i64::MIN <= page - 1 && i64::MIN <= (page - 1) * per_page <= i64::MAX) ==> r == Some(
            ((page - 1) * per_page) as i64,
        ),
        !(i64::MIN <= page - 1 && i64::MIN <= (page - 1) * per_page <= i64::MAX) ==> r is None,
{
    if page == i64::MIN {
        return None;
    }
    let p = (page - 1) as i128;
    let q = per_page as i128;
    assert(-0x8000_0000_0000_0000_0000_0000_0000_0000 < p * q < 0x8000_0000_0000_0000_0000_0000_0000_0000) by (nonlinear_arith)
        requires
            -0x8000_0000_0000_0000 <= p <= 0x8000_0000_0000_0000,
            -0x8000_0000_0000_0000 <= q <= 0x8000_0000_0000_0000,
    ;
    let o = p * q;
    if o < i64::MIN as i128 || o > i64::MAX as i128 {
        None
    } else {
        Some(o as i64)
    }
}

/// The `LIKE` pattern that finds `query` anywhere: `%query%`.
pub fn like_pattern(query: &str) -> (r: String)
    ensures
        r@ == seq!['%'] + query@ + seq!['%'],
{
    let r = concat3("%", query, "%");
    proof {
        reveal_strlit("%");
    }
    r
}

} // verus!
