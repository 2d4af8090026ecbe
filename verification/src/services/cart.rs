//! The shopping cart: validation of additions, how a line is stored, and the
//! cart's totals.
use vstd::prelude::*;
use vstd::string::StringExecFns;
use crate::input_types::id_types::{uuid_display, uuid_to_string};
use crate::text::concat2;

verus! {

/// Why a cart operation failed.
#[derive(Debug, Clone, PartialEq)]
pub enum CartError {
    /// The database failed (its message).
    Database(String),
    /// No cart line has this id.
    ItemNotFound(u128),
    /// The quantity is not positive.
    InvalidQuantity,
    /// The price is not positive.
    InvalidPrice,
}

/// The message of a cart error, as its display shows it.
pub open spec fn cart_error_text(e: CartError) -> Seq<char> {
    match e {
        CartError::Database(m) => "Database error: "@ + m@,
        CartError::ItemNotFound(id) => "Cart item not found: "@ + uuid_display(id),
        CartError::InvalidQuantity => "Quantity must be positive"@,
        CartError::InvalidPrice => "Price must be positive"@,
    }
}

impl CartError {
    /// The message shown for this error.
    pub fn message(&self) -> (r: String)
        ensures
            r@ == cart_error_text(*self),
    {
        match self {
            CartError::Database(m) => concat2("Database error: ", m.as_str()),
            CartError::ItemNotFound(id) => {
                let t = uuid_to_string(*id);
                concat2("Cart item not found: ", t.as_str())
            },
            CartError::InvalidQuantity => String::from_str("Quantity must be positive"),
            CartError::InvalidPrice => String::from_str("Price must be positive"),
        }
    }
}

/// A product to add to the cart.
#[derive(Debug, Clone)]
pub struct AddCartItemRequest {
    pub product_slug: String,
    pub product_name: String,
    /// The unit price, in bani.
    pub price_bani: i64,
    pub qty: i32,
}

/// A new quantity for a cart line.
#[derive(Debug, Clone)]
pub struct UpdateQtyRequest {
    pub qty: i32,
}

/// How an addition is stored.
#[derive(Debug, Clone)]
pub enum CartUpsert {
    /// A signed-in user's line, grouped by (user, product, price) across
    /// browsers; its session key is the user's id as text.
    ByUser { user_id: u128, session_key: String },
    /// An anonymous line, grouped by (session, product, price).
    BySession,
}

/// What follows the update of a signed-in user's line.
#[derive(Debug, Clone, Copy, PartialEq, Eq, Structural)]
pub enum UserLineNext {
    /// No line was there: insert one.
    InsertLine,
    /// The line was updated: read it back.
    FetchLine,
}

/// Validates an addition and chooses how it is stored: a non-positive
/// quantity, then a non-positive price, is refused; a signed-in user's line
/// is keyed by the user, an anonymous one by the session.
pub fn add_item_plan(user_id: Option<u128>, req: &AddCartItemRequest) -> (r: Result<CartUpsert, CartError>)
    ensures
        req.qty <= 0 ==> r == Err::<CartUpsert, CartError>(CartError::InvalidQuantity),
        req.qty > 0 && req.price_bani <= 0 ==> r == Err::<CartUpsert, CartError>(CartError::InvalidPrice),
        req.qty > 0 && req.price_bani > 0 ==> match user_id {
            Some(u) => r matches Ok(CartUpsert::ByUser { user_id: v, session_key: k }) && v == u
                && k@ == uuid_display(u),
            None => r matches Ok(CartUpsert::BySession),
        },
{
    if req.qty <= 0 {
        return Err(CartError::InvalidQuantity);
    }
    if req.price_bani <= 0 {
        return Err(CartError::InvalidPrice);
    }
    match user_id {
        Some(u) => Ok(CartUpsert::ByUser { user_id: u, session_key: uuid_to_string(u) }),
        None => Ok(CartUpsert::BySession),
    }
}

/// After updating a signed-in user's line: no row touched means a new line.
pub fn after_user_line_update(rows_affected: u64) -> (r: UserLineNext)
    ensures
        (r == UserLineNext::InsertLine) == (rows_affected == 0),
        (r == UserLineNext::FetchLine) == (rows_affected != 0),
{
    if rows_affected == 0 {
        UserLineNext::InsertLine
    } else {
        UserLineNext::FetchLine
    }
}

/// Validates a new quantity: it must be positive.
pub fn check_qty(qty: i32) -> (r: Result<(), CartError>)
    ensures
        qty <= 0 ==> r == Err::<(), CartError>(CartError::InvalidQuantity),
        qty > 0 ==> r is Ok,
{
    if qty <= 0 {
        Err(CartError::InvalidQuantity)
    } else {
        Ok(())
    }
}

/// The outcome of deleting the line `item_id`: no row deleted means it was not there.
pub fn removal_outcome(item_id: u128, rows_affected: u64) -> (r: Result<(), CartError>)
    ensures
        rows_affected == 0 ==> r == Err::<(), CartError>(CartError::ItemNotFound(item_id)),
        rows_affected != 0 ==> r is Ok,
{
    if rows_affected == 0 {
        Err(CartError::ItemNotFound(item_id))
    } else {
        Ok(())
    }
}

/// The line `item_id` as the update returned it, or `ItemNotFound`.
pub fn updated_line<T>(item_id: u128, line: Option<T>) -> (r: Result<T, CartError>)
    ensures
        line is None ==> r == Err::<T, CartError>(CartError::ItemNotFound(item_id)),
        line matches Some(l) ==> r == Ok::<T, CartError>(l),
{
    match line {
        Some(l) => Ok(l),
        None => Err(CartError::ItemNotFound(item_id)),
    }
}

/// What the totals read of a cart line.
#[derive(Debug, Clone, Copy)]
pub struct CartLine {
    pub price_bani: i64,
    pub qty: i32,
    pub user_id: Option<u128>,
}

/// The cart's totals and owner.
#[derive(Debug, Clone, Copy)]
pub struct CartTotals {
    /// Sum of price × quantity over the lines.
    pub total_bani: i64,
    /// Sum of the quantities.
    pub item_count: i32,
    /// The user of the first line that has one.
    pub user_id: Option<u128>,
}

/// Sum of price × quantity.
pub open spec fn lines_total(ls: Seq<CartLine>) -> int
    decreases ls.len(),
{
    if ls.len() == 0 {
        0
    } else {
        lines_total(ls.drop_last()) + ls.last().price_bani * ls.last().qty
    }
}

/// Sum of quantities.
pub open spec fn lines_count(ls: Seq<CartLine>) -> int
    decreases ls.len(),
{
    if ls.len() == 0 {
        0
    } else {
        lines_count(ls.drop_last()) + ls.last().qty
    }
}

/// Every product and every running total fits in an `i64`.
pub open spec fn total_fits(ls: Seq<CartLine>) -> bool
    decreases ls.len(),
{
    ls.len() == 0 || (total_fits(ls.drop_last()) && i64::MIN <= ls.last().price_bani * ls.last().qty
        <= i64::MAX && i64::MIN <= lines_total(ls) <= i64::MAX)
}

/// Every running count fits in an `i32`.
pub open spec fn count_fits(ls: Seq<CartLine>) -> bool
    decreases ls.len(),
{
    ls.len() == 0 || (count_fits(ls.drop_last()) && i32::MIN <= lines_count(ls) <= i32::MAX)
}

/// The user of the first line that has one.
pub open spec fn first_user(ls: Seq<CartLine>) -> Option<u128>
    decreases ls.len(),
{
    if ls.len() == 0 {
        None
    } else if ls[0].user_id is Some {
        ls[0].user_id
    } else {
        first_user(ls.drop_first())
    }
}

/// The totals of a cart: `None` where the sums overflow (where they would not
/// be computed).
pub fn cart_totals(lines: &[CartLine]) -> (r: Option<CartTotals>)
    ensures
        (total_fits(lines@) && count_fits(lines@)) ==> (r matches Some(t) && t.total_bani == lines_total(
            lines@,
        ) && t.item_count == lines_count(lines@) && t.user_id == first_user(lines@)),
        !(total_fits(lines@) && count_fits(lines@)) ==> r is None,
{
    let mut total: i64 = 0;
    let mut i: usize = 0;
    while i < lines.len()
        invariant
            i <= lines.len(),
            total_fits(lines@.subrange(0, i as int)),
            total == lines_total(lines@.subrange(0, i as int)),
        decreases lines.len() - i,
    {
        let ghost pre = lines@.subrange(0, i as int);
        let ghost next = lines@.subrange(0, i + 1);
        proof {
            assert(next.drop_last() =~= pre);
            assert(next.last() == lines@[i as int]);
        }
        let a = lines[i].price_bani as i128;
        let b = lines[i].qty as i128;
        assert(-0x8000_0000_0000_0000_0000_0000 <= a * b <= 0x8000_0000_0000_0000_0000_0000) by (nonlinear_arith)
            requires
                -0x8000_0000_0000_0000 <= a <= 0x8000_0000_0000_0000,
                -0x8000_0000 <= b <= 0x8000_0000,
        ;
        let p = a * b;
        if p < i64::MIN as i128 || p > i64::MAX as i128 {
            proof {
                lemma_total_fits_prefix(lines@, i + 1);
            }
            return None;
        }
        let s = (total as i128) + p;
        if s < i64::MIN as i128 || s > i64::MAX as i128 {
            proof {
                lemma_total_fits_prefix(lines@, i + 1);
            }
            return None;
        }
        total = s as i64;
        i += 1;
    }
    assert(lines@.subrange(0, lines.len() as int) =~= lines@);
    let mut count: i32 = 0;
    let mut j: usize = 0;
    while j < lines.len()
        invariant
            j <= lines.len(),
            count_fits(lines@.subrange(0, j as int)),
            count == lines_count(lines@.subrange(0, j as int)),
        decreases lines.len() - j,
    {
        let ghost pre = lines@.subrange(0, j as int);
        let ghost next = lines@.subrange(0, j + 1);
        proof {
            assert(next.drop_last() =~= pre);
            assert(next.last() == lines@[j as int]);
        }
        let s = (count as i64) + (lines[j].qty as i64);
        if s < i32::MIN as i64 || s > i32::MAX as i64 {
            proof {
                lemma_count_fits_prefix(lines@, j + 1);
            }
            return None;
        }
        count = s as i32;
        j += 1;
    }
    assert(lines@.subrange(0, lines.len() as int) =~= lines@);
    let user = find_first_user(lines);
    Some(CartTotals { total_bani: total, item_count: count, user_id: user })
}

/// The user of the first line that has one.
fn find_first_user(lines: &[CartLine]) -> (r: Option<u128>)
    ensures
        r == first_user(lines@),
{
    let mut k: usize = 0;
    assert(lines@.subrange(0, lines.len() as int) =~= lines@);
    while k < lines.len()
        invariant
            k <= lines.len(),
            first_user(lines@) == first_user(lines@.subrange(k as int, lines.len() as int)),
        decreases lines.len() - k,
    {
        let ghost rest = lines@.subrange(k as int, lines.len() as int);
        assert(rest[0] == lines@[k as int]);
        assert(rest.drop_first() =~= lines@.subrange(k + 1, lines.len() as int));
        if lines[k].user_id.is_some() {
            return lines[k].user_id;
        }
        k += 1;
    }
    assert(lines@.subrange(k as int, lines.len() as int) =~= Seq::<CartLine>::empty());
    None
}

proof fn lemma_total_fits_prefix(ls: Seq<CartLine>, n: int)
    requires
        0 <= n <= ls.len(),
        !total_fits(ls.subrange(0, n)),
    ensures
        !total_fits(ls),
    decreases ls.len(),
{
    if n < ls.len() {
        let t = ls.drop_last();
        assert(t.subrange(0, n) =~= ls.subrange(0, n));
        lemma_total_fits_prefix(t, n);
    } else {
        assert(ls.subrange(0, n) =~= ls);
    }
}

proof fn lemma_count_fits_prefix(ls: Seq<CartLine>, n: int)
    requires
        0 <= n <= ls.len(),
        !count_fits(ls.subrange(0, n)),
    ensures
        !count_fits(ls),
    decreases ls.len(),
{
    if n < ls.len() {
        let t = ls.drop_last();
        assert(t.subrange(0, n) =~= ls.subrange(0, n));
        lemma_count_fits_prefix(t, n);
    } else {
        assert(ls.subrange(0, n) =~= ls);
    }
}

} // verus!
