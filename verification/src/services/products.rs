//! Products: the checks of the catalog, the merge of a partial update, and
//! the page numbers shown under a listing of products.
use vstd::prelude::*;
use vstd::string::StringExecFns;
use crate::text::{concat2, to_owned_string};

verus! {

/// Why a product operation failed.
#[derive(Debug, Clone, PartialEq)]
pub enum ProductError {
    /// The database failed (its message).
    Database(String),
    /// No product has this slug.
    NotFound(String),
    /// The request is invalid (why).
    Validation(String),
}

/// The message of a product error, as its display shows it.
pub open spec fn product_error_text(e: ProductError) -> Seq<char> {
    match e {
        ProductError::Database(m) => "Database error: "@ + m@,
        ProductError::NotFound(s) => "Product not found: "@ + s@,
        ProductError::Validation(m) => "Validation error: "@ + m@,
    }
}

impl ProductError {
    /// The message shown for this error.
    pub fn message(&self) -> (r: String)
        ensures
            r@ == product_error_text(*self),
    {
        match self {
            ProductError::Database(m) => concat2("Database error: ", m.as_str()),
            ProductError::NotFound(s) => concat2("Product not found: ", s.as_str()),
            ProductError::Validation(m) => concat2("Validation error: ", m.as_str()),
        }
    }
}

/// The values of a product that an update reads and writes.
#[derive(Debug, Clone)]
pub struct Product {
    pub id: i32,
    pub brand: String,
    pub name: String,
    pub slug: String,
    pub category_id: i32,
    pub release_year: Option<i32>,
    pub specs: serde_json::Value,
    pub price_new: Option<i32>,
    pub affiliate_url: Option<String>,
    pub image_url: Option<String>,
    pub stock_count: i32,
}

/// A product to add to the catalog (`specs` not given: an empty object).
#[derive(Debug, Clone)]
pub struct CreateProductRequest {
    pub brand: String,
    pub name: String,
    pub slug: String,
    pub category_id: i32,
    pub release_year: Option<i32>,
    pub specs: Option<serde_json::Value>,
    pub price_new: Option<i32>,
    pub affiliate_url: Option<String>,
    pub image_url: Option<String>,
    pub stock_count: Option<i32>,
}

/// The fields of a product to change (`None`: unchanged).
#[derive(Debug, Clone)]
pub struct UpdateProductRequest {
    pub brand: Option<String>,
    pub name: Option<String>,
    pub stock_count: Option<i32>,
    pub slug: Option<String>,
    pub category_id: Option<i32>,
    pub release_year: Option<i32>,
    pub specs: Option<serde_json::Value>,
    pub price_new: Option<i32>,
    pub affiliate_url: Option<String>,
    pub image_url: Option<String>,
}

/// A product's count per brand.
#[derive(Debug, Clone)]
pub struct BrandCount {
    pub brand: String,
    pub cnt: Option<i64>,
}

/// Catalog statistics.
#[derive(Debug, Clone)]
pub struct ProductStats {
    pub total: i64,
    pub brands: Vec<BrandCount>,
    pub full_specs: i64,
    pub with_images: i64,
}

/// A new product needs a brand and a name.
pub fn check_new_product(brand: &str, name: &str) -> (r: Result<(), ProductError>)
    ensures
        (brand@.len() == 0 || name@.len() == 0) ==> (r matches Err(ProductError::Validation(m)) && m@
            == "Brand and name are required"@),
        (brand@.len() > 0 && name@.len() > 0) ==> r is Ok,
{
    if brand.is_empty() || name.is_empty() {
        Err(ProductError::Validation(String::from_str("Brand and name are required")))
    } else {
        Ok(())
    }
}

/// The product to update, or `NotFound` with its slug.
pub fn found_product<T>(slug: &str, found: Option<T>) -> (r: Result<T, ProductError>)
    ensures
        found matches Some(p) ==> r == Ok::<T, ProductError>(p),
        found is None ==> (r matches Err(ProductError::NotFound(s)) && s@ == slug@),
{
    match found {
        Some(p) => Ok(p),
        None => Err(ProductError::NotFound(to_owned_string(slug))),
    }
}

/// The outcome of deleting the product `slug`: no row deleted means no such product.
pub fn delete_outcome(slug: &str, rows_affected: u64) -> (r: Result<(), ProductError>)
    ensures
        rows_affected == 0 ==> (r matches Err(ProductError::NotFound(s)) && s@ == slug@),
        rows_affected != 0 ==> r is Ok,
{
    if rows_affected == 0 {
        Err(ProductError::NotFound(to_owned_string(slug)))
    } else {
        Ok(())
    }
}

/// An optional text: the given one, else the current one.
pub open spec fn text_or(given: Option<String>, current: String) -> Seq<char> {
    match given {
        Some(g) => g@,
        None => current@,
    }
}

/// An optional value: the given one, else the current one.
pub open spec fn value_or<T>(given: Option<T>, current: T) -> T {
    match given {
        Some(g) => g,
        None => current,
    }
}

/// The product after a partial update: every field given replaces the
/// current one; the others stay.
pub fn merge_update(existing: Product, req: UpdateProductRequest) -> (r: Product)
    ensures
        r.id == existing.id,
        r.brand@ == text_or(req.brand, existing.brand),
        r.name@ == text_or(req.name, existing.name),
        r.slug@ == text_or(req.slug, existing.slug),
        r.category_id == value_or(req.category_id, existing.category_id),
        r.release_year == (match req.release_year {
            Some(y) => Some(y),
            None => existing.release_year,
        }),
        r.specs == value_or(req.specs, existing.specs),
        r.price_new == (match req.price_new {
            Some(p) => Some(p),
            None => existing.price_new,
        }),
        r.stock_count == value_or(req.stock_count, existing.stock_count),
        r.affiliate_url == (match req.affiliate_url {
            Some(u) => Some(u),
            None => existing.affiliate_url,
        }),
        r.image_url == (match req.image_url {
            Some(u) => Some(u),
            None => existing.image_url,
        }),
{
    Product {
        id: existing.id,
        brand: match req.brand {
            Some(b) => b,
            None => existing.brand,
        },
        name: match req.name {
            Some(n) => n,
            None => existing.name,
        },
        slug: match req.slug {
            Some(s) => s,
            None => existing.slug,
        },
        category_id: match req.category_id {
            Some(c) => c,
            None => existing.category_id,
        },
        release_year: match req.release_year {
            Some(y) => Some(y),
            None => existing.release_year,
        },
        specs: match req.specs {
            Some(s) => s,
            None => existing.specs,
        },
        price_new: match req.price_new {
            Some(p) => Some(p),
            None => existing.price_new,
        },
        affiliate_url: match req.affiliate_url {
            Some(u) => Some(u),
            None => existing.affiliate_url,
        },
        image_url: match req.image_url {
            Some(u) => Some(u),
            None => existing.image_url,
        },
        stock_count: match req.stock_count {
            Some(s) => s,
            None => existing.stock_count,
        },
    }
}

/// Products shown on one page.
pub const PER_PAGE: i64 = 24;

/// The number of pages for `total` products: `total / 24` rounded up, and
/// one (empty) page when there are none.
pub open spec fn page_count(total: int) -> int {
    if total == 0 {
        1
    } else if total > 0 {
        (total + 23) / 24
    } else {
        -((-total) / 24)
    }
}

/// The number of pages for `total` products (see `page_count`).
pub fn total_pages(total: i64) -> (r: i64)
    ensures
        r == page_count(total as int),
{
    if total == 0 {
        1
    } else if total > 0 {
        (total - 1) / PER_PAGE + 1
    } else {
        total / PER_PAGE
    }
}

/// Whether page `p` is shown: among the first three, the last three, or
/// within two of the current page.
pub open spec fn shown(p: int, current: int, total: int) -> bool {
    ||| (1 <= p && p <= 3 && p <= total)
    ||| ((total - 2 <= p && 1 <= p) && p <= total)
    ||| ((current - 2 <= p && 1 <= p) && (p <= current + 2 && p <= total))
}

/// The shown pages from `lo` on, with `-1` for each gap; `prev` is the last
/// page shown before `lo` (0 for none).
pub open spec fn page_list(lo: int, current: int, total: int, prev: int) -> Seq<i64>
    decreases total + 1 - lo,
{
    if lo > total {
        Seq::empty()
    } else if shown(lo, current, total) {
        (if prev != 0 && lo > prev + 1 {
            seq![-1i64]
        } else {
            Seq::empty()
        }) + seq![lo as i64] + page_list(lo + 1, current, total, lo)
    } else {
        page_list(lo + 1, current, total, prev)
    }
}

proof fn lemma_skip_hidden(lo: int, p: int, current: int, total: int, prev: int)
    requires
        lo <= p <= total + 1,
        forall|q: int| lo <= q < p ==> !#[trigger] shown(q, current, total),
    ensures
        page_list(lo, current, total, prev) == page_list(p, current, total, prev),
    decreases p - lo,
{
    if lo < p {
        assert(!shown(lo, current, total));
        lemma_skip_hidden(lo + 1, p, current, total, prev);
    }
}

/// The first shown page after `after`, if any.
fn next_shown(after: i64, current: i64, total: i64) -> (r: Option<i64>)
    requires
        0 <= after <= total,
        current <= i64::MAX - 2,
        current >= i64::MIN + 2,
        total >= i64::MIN + 2,
    ensures
        r matches Some(p) ==> after < p <= total && shown(p as int, current as int, total as int) && (
        forall|q: int| after < q < p ==> !#[trigger] shown(q, current as int, total as int)),
        r is None ==> forall|q: int|
            after < q <= total ==> !#[trigger] shown(q, current as int, total as int),
{
    if after == total {
        return None;
    }
    let lo = after + 1;
    let mut best: Option<i64> = None;
    // first three pages
    let a_hi: i64 = if total < 3 { total } else { 3 };
    if lo <= a_hi {
        let c = if lo < 1 { 1 } else { lo };
        best = Some(c);
    }
    // last three pages
    let b_lo: i64 = if total - 2 < 1 { 1 } else { total - 2 };
    if lo <= total {
        let c = if lo < b_lo { b_lo } else { lo };
        best = match best {
            Some(x) => if c < x { Some(c) } else { Some(x) },
            None => Some(c),
        };
    }
    // around the current page
    let c_lo: i64 = if current - 2 < 1 { 1 } else { current - 2 };
    let c_hi: i64 = if current + 2 < total { current + 2 } else { total };
    let c = if lo < c_lo { c_lo } else { lo };
    if c <= c_hi {
        best = match best {
            Some(x) => if c < x { Some(c) } else { Some(x) },
            None => Some(c),
        };
    }
    best
}

/// The page numbers shown under a listing: the first three, the last
/// three and the two on either side of the current page, in order, with `-1`
/// where pages are skipped.
pub fn build_page_numbers(current: i64, total: i64) -> (r: Vec<i64>)
    requires
        current <= i64::MAX - 2,
        current >= i64::MIN + 2,
        total >= i64::MIN + 2,
    ensures
        r@ == page_list(1, current as int, total as int, 0),
{
    let mut out: Vec<i64> = Vec::new();
    if total < 1 {
        return out;
    }
    let mut prev: i64 = 0;
    while prev < total
        invariant
            0 <= prev <= total,
            current <= i64::MAX - 2,
            current >= i64::MIN + 2,
            total >= i64::MIN + 2,
            out@ + page_list(prev + 1, current as int, total as int, prev as int) == page_list(
                1,
                current as int,
                total as int,
                0,
            ),
        decreases total - prev,
    {
        match next_shown(prev, current, total) {
            None => {
                proof {
                    lemma_skip_hidden(prev + 1, total + 1, current as int, total as int, prev as int);
                    assert(out@ + Seq::<i64>::empty() =~= out@);
                }
                return out;
            },
            Some(p) => {
                proof {
                    lemma_skip_hidden(prev + 1, p as int, current as int, total as int, prev as int);
                }
                let ghost before = out@;
                if prev != 0 && p > prev + 1 {
                    out.push(-1);
                }
                out.push(p);
                proof {
                    let gap: Seq<i64> = if prev != 0 && p > prev + 1 {
                        seq![-1i64]
                    } else {
                        Seq::empty()
                    };
                    assert(out@ =~= before + gap + seq![p]);
                    assert(page_list(p as int, current as int, total as int, prev as int) == gap
                        + seq![p] + page_list(p + 1, current as int, total as int, p as int));
                    assert(out@ + page_list(p + 1, current as int, total as int, p as int) =~= before
                        + (gap + seq![p] + page_list(p + 1, current as int, total as int, p as int)));
                }
                prev = p;
            },
        }
    }
    proof {
        assert(page_list(prev + 1, current as int, total as int, prev as int) == Seq::<i64>::empty());
        assert(out@ + Seq::<i64>::empty() =~= out@);
    }
    out
}


/// The shown pages from `lo` on lie between `lo` and `total` (or are the gap
/// mark `-1`), end with `total`, and hold the current page when it is at or
/// after `lo`.
proof fn lemma_page_list_from(lo: int, current: int, total: int, prev: int)
    requires
        1 <= lo,
        total <= i64::MAX,
    ensures
        forall|i: int|
            0 <= i < page_list(lo, current, total, prev).len() ==> (#[trigger] page_list(
                lo,
                current,
                total,
                prev,
            )[i] == -1 || (lo <= page_list(lo, current, total, prev)[i] <= total)),
        lo <= total ==> page_list(lo, current, total, prev).len() > 0 && page_list(
            lo,
            current,
            total,
            prev,
        ).last() == total,
        lo <= current <= total ==> page_list(lo, current, total, prev).contains(current as i64),
    decreases total + 1 - lo,
{
    if lo <= total {
        let here = shown(lo, current, total);
        let next_prev = if here {
            lo
        } else {
            prev
        };
        lemma_page_list_from(lo + 1, current, total, next_prev);
        let rest = page_list(lo + 1, current, total, next_prev);
        if here {
            let gap: Seq<i64> = if prev != 0 && lo > prev + 1 {
                seq![-1i64]
            } else {
                Seq::empty()
            };
            let l = gap + seq![lo as i64] + rest;
            assert(page_list(lo, current, total, prev) == l);
            assert forall|i: int| 0 <= i < l.len() implies (#[trigger] l[i] == -1 || (lo <= l[i]
                <= total)) by {
                if i < gap.len() {
                    assert(l[i] == -1);
                } else if i == gap.len() {
                    assert(l[i] == lo as i64);
                } else {
                    assert(l[i] == rest[i - gap.len() - 1]);
                }
            }
            if lo < total {
                assert(l.last() == rest.last());
            } else {
                assert(rest.len() == 0);
                assert(l.last() == lo as i64);
            }
            if lo == current {
                assert(l[gap.len() as int] == current as i64);
            } else if lo < current <= total {
                let k = choose|k: int| 0 <= k < rest.len() && rest[k] == current as i64;
                assert(l[gap.len() + 1 + k] == current as i64);
            }
        } else {
            assert(page_list(lo, current, total, prev) == rest);
            assert(lo != total);
            assert(lo != current);
        }
    }
}

/// The pages shown are `1` first and `total` last, each between `1` and
/// `total` apart from the gap marks `-1`, and the current page is among them
/// when it is a page; with no page there is nothing to show.
pub proof fn lemma_page_numbers_shape(current: i64, total: i64)
    ensures
        total < 1 ==> page_list(1, current as int, total as int, 0).len() == 0,
        total >= 1 ==> page_list(1, current as int, total as int, 0).len() > 0 && page_list(
            1,
            current as int,
            total as int,
            0,
        )[0] == 1 && page_list(1, current as int, total as int, 0).last() == total,
        forall|i: int|
            0 <= i < page_list(1, current as int, total as int, 0).len() ==> (#[trigger] page_list(
                1,
                current as int,
                total as int,
                0,
            )[i] == -1 || (1 <= page_list(1, current as int, total as int, 0)[i] <= total)),
        1 <= current <= total ==> page_list(1, current as int, total as int, 0).contains(current),
{
    lemma_page_list_from(1, current as int, total as int, 0);
    if total >= 1 {
        assert(shown(1, current as int, total as int));
        let rest = page_list(2, current as int, total as int, 1);
        assert(page_list(1, current as int, total as int, 0) == Seq::<i64>::empty() + seq![1i64]
            + rest);
        assert((Seq::<i64>::empty() + seq![1i64] + rest)[0] == 1);
    }
}

} // verus!
