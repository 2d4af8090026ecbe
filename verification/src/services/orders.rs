//! Orders: what is checked before an order is placed, its total, and the
//! stock decision for each product.
use vstd::prelude::*;
use vstd::string::StringExecFns;
use crate::input_types::id_types::{uuid_display, uuid_to_string};
use crate::text::{concat2, decimal, i64_to_decimal, to_owned_string, trim, trim_string};

verus! {

/// Why an order operation failed.
#[derive(Debug, Clone, PartialEq)]
pub enum OrderError {
    /// The database failed (its message).
    Database(String),
    /// No order has this id.
    NotFound(u128),
    /// The cart is empty.
    EmptyCart,
    /// Not enough stock: product slug, stock available, quantity asked.
    InsufficientStock(String, i32, i32),
    /// The request is invalid (why).
    Validation(String),
}

/// The message of an order error, as its display shows it.
pub open spec fn order_error_text(e: OrderError) -> Seq<char> {
    match e {
        OrderError::Database(m) => "Database error: "@ + m@,
        OrderError::NotFound(id) => "Order not found: "@ + uuid_display(id),
        OrderError::EmptyCart => "Empty cart"@,
        OrderError::InsufficientStock(s, have, want) => "Stoc insuficient pentru "@ + s@ + ": "@
            + decimal(have as int) + " disponibil, "@ + decimal(want as int) + " cerut"@,
        OrderError::Validation(m) => "Validation error: "@ + m@,
    }
}

impl OrderError {
    /// The message shown for this error.
    pub fn message(&self) -> (r: String)
        ensures
            r@ == order_error_text(*self),
    {
        match self {
            OrderError::Database(m) => concat2("Database error: ", m.as_str()),
            OrderError::NotFound(id) => {
                let t = uuid_to_string(*id);
                concat2("Order not found: ", t.as_str())
            },
            OrderError::EmptyCart => String::from_str("Empty cart"),
            OrderError::InsufficientStock(s, have, want) => {
                let mut r = concat2("Stoc insuficient pentru ", s.as_str());
                r.append(": ");
                let h = i64_to_decimal(*have as i64);
                r.append(h.as_str());
                r.append(" disponibil, ");
                let w = i64_to_decimal(*want as i64);
                r.append(w.as_str());
                r.append(" cerut");
                r
            },
            OrderError::Validation(m) => concat2("Validation error: ", m.as_str()),
        }
    }
}

/// What a buyer submits to place an order.
#[derive(Debug, Clone)]
pub struct PlaceOrderRequest {
    pub session_id: String,
    pub guest_email: Option<String>,
    pub shipping_name: String,
    pub shipping_address: String,
    pub shipping_phone: String,
    pub notes: Option<String>,
}

/// A cart line of an order: slug, name, unit price in bani, quantity.
pub type OrderLine = (String, String, i64, i32);

/// The checks before an order is placed: the cart must not be empty, and
/// the name and the address must not be blank.
pub fn validate_order(req: &PlaceOrderRequest, lines: &[OrderLine]) -> (r: Result<(), OrderError>)
    ensures
        lines@.len() == 0 ==> r == Err::<(), OrderError>(OrderError::EmptyCart),
        lines@.len() > 0 && (trim(req.shipping_name@).len() == 0 || trim(req.shipping_address@).len()
            == 0) ==> (r matches Err(OrderError::Validation(m)) && m@ == "Name and address are required"@),
        lines@.len() > 0 && trim(req.shipping_name@).len() > 0 && trim(req.shipping_address@).len()
            > 0 ==> r is Ok,
{
    if lines.len() == 0 {
        return Err(OrderError::EmptyCart);
    }
    let name = trim_string(req.shipping_name.as_str());
    let address = trim_string(req.shipping_address.as_str());
    if name.as_str().is_empty() || address.as_str().is_empty() {
        return Err(OrderError::Validation(String::from_str("Name and address are required")));
    }
    Ok(())
}

/// Sum of price × quantity.
pub open spec fn order_sum(ls: Seq<OrderLine>) -> int
    decreases ls.len(),
{
    if ls.len() == 0 {
        0
    } else {
        order_sum(ls.drop_last()) + ls.last().2 * ls.last().3
    }
}

/// Every product and every running total fits in an `i64`.
pub open spec fn order_sum_fits(ls: Seq<OrderLine>) -> bool
    decreases ls.len(),
{
    ls.len() == 0 || (order_sum_fits(ls.drop_last()) && i64::MIN <= ls.last().2 * ls.last().3
        <= i64::MAX && i64::MIN <= order_sum(ls) <= i64::MAX)
}

proof fn lemma_sum_fits_prefix(ls: Seq<OrderLine>, n: int)
    requires
        0 <= n <= ls.len(),
        !order_sum_fits(ls.subrange(0, n)),
    ensures
        !order_sum_fits(ls),
    decreases ls.len(),
{
    if n < ls.len() {
        let t = ls.drop_last();
        assert(t.subrange(0, n) =~= ls.subrange(0, n));
        lemma_sum_fits_prefix(t, n);
    } else {
        assert(ls.subrange(0, n) =~= ls);
    }
}

/// The order's total, price × quantity summed over the lines; `None` where
/// the sum overflows (where it would not be computed).
pub fn order_total(lines: &[OrderLine]) -> (r: Option<i64>)
    ensures
        order_sum_fits(lines@) ==> r == Some(order_sum(lines@) as i64),
        !order_sum_fits(lines@) ==> r is None,
{
    let mut total: i64 = 0;
    let mut i: usize = 0;
    while i < lines.len()
        invariant
            i <= lines.len(),
            order_sum_fits(lines@.subrange(0, i as int)),
            total == order_sum(lines@.subrange(0, i as int)),
        decreases lines.len() - i,
    {
        let ghost pre = lines@.subrange(0, i as int);
        let ghost next = lines@.subrange(0, i + 1);
        proof {
            assert(next.drop_last() =~= pre);
            assert(next.last() == lines@[i as int]);
        }
        let a = lines[i].2 as i128;
        let b = lines[i].3 as i128;
        assert(-0x8000_0000_0000_0000_0000_0000 <= a * b <= 0x8000_0000_0000_0000_0000_0000) by (nonlinear_arith)
            requires
                -0x8000_0000_0000_0000 <= a <= 0x8000_0000_0000_0000,
                -0x8000_0000 <= b <= 0x8000_0000,
        ;
        let p = a * b;
        if p < i64::MIN as i128 || p > i64::MAX as i128 {
            proof {
                lemma_sum_fits_prefix(lines@, i + 1);
            }
            return None;
        }
        let s = (total as i128) + p;
        if s < i64::MIN as i128 || s > i64::MAX as i128 {
            proof {
                lemma_sum_fits_prefix(lines@, i + 1);
            }
            return None;
        }
        total = s as i64;
        i += 1;
    }
    assert(lines@.subrange(0, lines.len() as int) =~= lines@);
    Some(total)
}

/// The notes of an order (none given: empty).
pub fn order_notes(notes: Option<String>) -> (r: String)
    ensures
        r@ == match notes {
            Some(n) => n@,
            None => Seq::<char>::empty(),
        },
{
    match notes {
        Some(n) => n,
        None => String::new(),
    }
}

/// The stock decision for one product: enough stock (`stock` ≥ `qty`) lets
/// the order take it; otherwise the order is refused with the stock found
/// (0 for a product that does not exist).
pub fn stock_decision(slug: &str, stock: Option<i32>, qty: i32) -> (r: Result<(), OrderError>)
    ensures
        stock matches Some(s) ==> (s >= qty ==> r is Ok),
        stock matches Some(s) ==> (s < qty ==> (r matches Err(
            OrderError::InsufficientStock(p, have, want),
        ) && p@ == slug@ && have == s && want == qty)),
        stock is None ==> (r matches Err(OrderError::InsufficientStock(p, have, want)) && p@ == slug@
            && have == 0 && want == qty),
{
    match stock {
        Some(s) => if s >= qty {
            Ok(())
        } else {
            Err(OrderError::InsufficientStock(to_owned_string(slug), s, qty))
        },
        None => Err(OrderError::InsufficientStock(to_owned_string(slug), 0, qty)),
    }
}

/// The outcome of an update of the order `id`: no row touched means no such order.
pub fn update_outcome(id: u128, rows_affected: u64) -> (r: Result<(), OrderError>)
    ensures
        rows_affected == 0 ==> r == Err::<(), OrderError>(OrderError::NotFound(id)),
        rows_affected != 0 ==> r is Ok,
{
    if rows_affected == 0 {
        Err(OrderError::NotFound(id))
    } else {
        Ok(())
    }
}

} // verus!
