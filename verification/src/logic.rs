//! Business rules checked before the services act: object ownership (IDOR),
//! roles, the order/payment state machine, stock and limits.
use vstd::prelude::*;
use vstd::std_specs::cmp::PartialEqSpec;
use vstd::string::StringExecFns;
use crate::text::{concat2, decimal, i64_to_decimal, str_eq, to_owned_string};

verus! {

/// A business rule that a request breaks.
#[derive(Debug, Clone, PartialEq)]
pub enum LogicError {
    /// The object does not belong to the user (IDOR).
    Forbidden,
    /// The user lacks the named role.
    Unauthorized(String),
    /// A state transition that is not allowed.
    InvalidStatus(String),
    /// Stock available, quantity requested.
    InsufficientStock(i32, i32),
    /// A limit was exceeded.
    LimitExceeded(String),
    /// A resource is missing.
    NotFound(String),
    /// The operation was already carried out.
    Duplicate(String),
    /// Any other rule.
    Other(String),
}

/// Text of a `LogicError`, as its display shows it.
pub open spec fn logic_error_text(e: LogicError) -> Seq<char> {
    match e {
        LogicError::Forbidden => "Acces interzis"@,
        LogicError::Unauthorized(role) => "Rol insuficient: "@ + role@,
        LogicError::InvalidStatus(s) => "Stare invalidă: "@ + s@,
        LogicError::InsufficientStock(have, want) => "Stoc insuficient: "@ + decimal(have as int)
            + " disponibil, "@ + decimal(want as int) + " cerut"@,
        LogicError::LimitExceeded(m) => "Limită depășită: "@ + m@,
        LogicError::NotFound(m) => "Negăsit: "@ + m@,
        LogicError::Duplicate(m) => "Duplicat: "@ + m@,
        LogicError::Other(m) => m@,
    }
}

impl LogicError {
    /// The message shown to users for this error.
    pub fn message(&self) -> (r: String)
        ensures
            r@ == logic_error_text(*self),
    {
        match self {
            LogicError::Forbidden => String::from_str("Acces interzis"),
            LogicError::Unauthorized(role) => concat2("Rol insuficient: ", role.as_str()),
            LogicError::InvalidStatus(s) => concat2("Stare invalidă: ", s.as_str()),
            LogicError::InsufficientStock(have, want) => {
                let mut r = String::from_str("Stoc insuficient: ");
                let h = i64_to_decimal(*have as i64);
                r.append(h.as_str());
                r.append(" disponibil, ");
                let w = i64_to_decimal(*want as i64);
                r.append(w.as_str());
                r.append(" cerut");
                r
            },
            LogicError::LimitExceeded(m) => concat2("Limită depășită: ", m.as_str()),
            LogicError::NotFound(m) => concat2("Negăsit: ", m.as_str()),
            LogicError::Duplicate(m) => concat2("Duplicat: ", m.as_str()),
            LogicError::Other(m) => to_owned_string(m.as_str()),
        }
    }
}

/// The transitions of the order and payment state machines.
pub open spec fn allowed_transition(current: Seq<char>, next: Seq<char>) -> bool {
    ||| current == "pending"@ && next == "confirmed"@
    ||| current == "pending"@ && next == "cancelled"@
    ||| current == "confirmed"@ && next == "shipped"@
    ||| current == "confirmed"@ && next == "cancelled"@
    ||| current == "shipped"@ && next == "delivered"@
    ||| current == "paid"@ && next == "refunded"@
    ||| current == "unpaid"@ && next == "paid"@
}

/// Message of a refused transition.
pub open spec fn transition_refusal(current: Seq<char>, next: Seq<char>) -> Seq<char> {
    "Tranziția "@ + current + " → "@ + next + " nu e permisă"@
}

/// Message of a quantity outside `[min, max]`.
pub open spec fn range_refusal(qty: int, min: int, max: int) -> Seq<char> {
    "Cantitatea "@ + decimal(qty) + " nu e în intervalul ["@ + decimal(min) + ", "@ + decimal(max)
        + "]"@
}

/// Message of a value above its maximum.
pub open spec fn max_refusal(label: Seq<char>, value: int, max: int) -> Seq<char> {
    label + " "@ + decimal(value) + " depășește maximul "@ + decimal(max)
}

/// Business-rule checks; each returns `Ok(())` or the rule that was broken.
pub struct LogicFactory;

impl LogicFactory {
    /// The object belongs to the user: `user_id == owner_id`, else `Forbidden`.
    pub fn verify_ownership<T: PartialEq + Eq + std::fmt::Debug>(
        user_id: &T,
        owner_id: &T,
        object_name: &str,
    ) -> (r: Result<(), LogicError>)
        ensures
            T::obeys_eq_spec() ==> (r is Ok <==> user_id.eq_spec(owner_id)),
            r is Err ==> r == Err::<(), LogicError>(LogicError::Forbidden),
    {
        if user_id == owner_id {
            Ok(())
        } else {
            Err(LogicError::Forbidden)
        }
    }

    /// The role is `"admin"`, else `Unauthorized("admin")`.
    pub fn verify_admin(role: &str) -> (r: Result<(), LogicError>)
        ensures
            r is Ok <==> role@ == "admin"@,
            r matches Err(e) ==> e matches LogicError::Unauthorized(m) && m@ == "admin"@,
    {
        if str_eq(role, "admin") {
            Ok(())
        } else {
            Err(LogicError::Unauthorized(String::from_str("admin")))
        }
    }

    /// The role equals `required`, else `Unauthorized(required)`.
    pub fn verify_role(role: &str, required: &str) -> (r: Result<(), LogicError>)
        ensures
            r is Ok <==> role@ == required@,
            r matches Err(e) ==> e matches LogicError::Unauthorized(m) && m@ == required@,
    {
        if str_eq(role, required) {
            Ok(())
        } else {
            Err(LogicError::Unauthorized(to_owned_string(required)))
        }
    }

    /// The payment status is not `"paid"`, else `InvalidStatus`.
    pub fn verify_not_paid(payment_status: &str) -> (r: Result<(), LogicError>)
        ensures
            r is Ok <==> payment_status@ != "paid"@,
            r matches Err(e) ==> e matches LogicError::InvalidStatus(m) && m@
                == "Comanda e deja plătită"@,
    {
        if str_eq(payment_status, "paid") {
            Err(LogicError::InvalidStatus(String::from_str("Comanda e deja plătită")))
        } else {
            Ok(())
        }
    }

    /// `current → next` is one of the allowed transitions, else `InvalidStatus`.
    pub fn verify_status_transition(current: &str, next: &str) -> (r: Result<(), LogicError>)
        ensures
            r is Ok <==> allowed_transition(current@, next@),
            r is Ok <==> {
                ||| current@ == "pending"@ && next@ == "confirmed"@
                ||| current@ == "pending"@ && next@ == "cancelled"@
                ||| current@ == "confirmed"@ && next@ == "shipped"@
                ||| current@ == "confirmed"@ && next@ == "cancelled"@
                ||| current@ == "shipped"@ && next@ == "delivered"@
                ||| current@ == "paid"@ && next@ == "refunded"@
                ||| current@ == "unpaid"@ && next@ == "paid"@
            },
            r matches Err(e) ==> e matches LogicError::InvalidStatus(m) && m@ == transition_refusal(
                current@,
                next@,
            ),
    {
        let valid = (str_eq(current, "pending") && str_eq(next, "confirmed")) || (str_eq(
            current,
            "pending",
        ) && str_eq(next, "cancelled")) || (str_eq(current, "confirmed") && str_eq(
            next,
            "shipped",
        )) || (str_eq(current, "confirmed") && str_eq(next, "cancelled")) || (str_eq(
            current,
            "shipped",
        ) && str_eq(next, "delivered")) || (str_eq(current, "paid") && str_eq(next, "refunded"))
            || (str_eq(current, "unpaid") && str_eq(next, "paid"));
        if valid {
            Ok(())
        } else {
            let mut m = String::from_str("Tranziția ");
            m.append(current);
            m.append(" → ");
            m.append(next);
            m.append(" nu e permisă");
            Err(LogicError::InvalidStatus(m))
        }
    }

    /// `stock >= requested`, else `InsufficientStock(stock, requested)`.
    pub fn verify_stock_available(stock: i32, requested: i32) -> (r: Result<(), LogicError>)
        ensures
            r is Ok <==> stock >= requested,
            r is Err ==> r == Err::<(), LogicError>(LogicError::InsufficientStock(stock, requested)),
    {
        if stock >= requested {
            Ok(())
        } else {
            Err(LogicError::InsufficientStock(stock, requested))
        }
    }

    /// `min <= qty <= max`, else `LimitExceeded`.
    pub fn verify_qty_in_range(qty: i32, min: i32, max: i32) -> (r: Result<(), LogicError>)
        ensures
            r is Ok <==> min <= qty <= max,
            r matches Err(e) ==> e matches LogicError::LimitExceeded(m) && m@ == range_refusal(
                qty as int,
                min as int,
                max as int,
            ),
    {
        if qty >= min && qty <= max {
            Ok(())
        } else {
            let mut m = String::from_str("Cantitatea ");
            let q = i64_to_decimal(qty as i64);
            m.append(q.as_str());
            m.append(" nu e în intervalul [");
            let lo = i64_to_decimal(min as i64);
            m.append(lo.as_str());
            m.append(", ");
            let hi = i64_to_decimal(max as i64);
            m.append(hi.as_str());
            m.append("]");
            Err(LogicError::LimitExceeded(m))
        }
    }

    /// `value <= max`, else `LimitExceeded`.
    pub fn verify_max_value(value: i64, max: i64, label: &str) -> (r: Result<(), LogicError>)
        ensures
            r is Ok <==> value <= max,
            r matches Err(e) ==> e matches LogicError::LimitExceeded(m) && m@ == max_refusal(
                label@,
                value as int,
                max as int,
            ),
    {
        if value <= max {
            Ok(())
        } else {
            let mut m = to_owned_string(label);
            m.append(" ");
            let v = i64_to_decimal(value);
            m.append(v.as_str());
            m.append(" depășește maximul ");
            let mx = i64_to_decimal(max);
            m.append(mx.as_str());
            Err(LogicError::LimitExceeded(m))
        }
    }

    /// The resource is present, else `NotFound(name)`.
    pub fn verify_found<T>(resource: Option<T>, name: &str) -> (r: Result<T, LogicError>)
        ensures
            resource matches Some(v) ==> r == Ok::<T, LogicError>(v),
            resource is None ==> (r matches Err(e) && e matches LogicError::NotFound(m) && m@
                == name@),
    {
        match resource {
            Some(v) => Ok(v),
            None => Err(LogicError::NotFound(to_owned_string(name))),
        }
    }

    /// The operation was not already done, else `Duplicate(msg)`.
    pub fn verify_not_duplicate(already_done: bool, msg: &str) -> (r: Result<(), LogicError>)
        ensures
            r is Ok <==> !already_done,
            r matches Err(e) ==> e matches LogicError::Duplicate(m) && m@ == msg@,
    {
        if already_done {
            Err(LogicError::Duplicate(to_owned_string(msg)))
        } else {
            Ok(())
        }
    }
}

proof fn lemma_status_words_distinct()
    ensures
        "pending"@.len() == 7 && "shipped"@.len() == 7,
        "confirmed"@.len() == 9 && "cancelled"@.len() == 9 && "delivered"@.len() == 9,
        "paid"@.len() == 4 && "refunded"@.len() == 8 && "unpaid"@.len() == 6,
        "pending"@ != "shipped"@,
        "confirmed"@ != "cancelled"@ && "confirmed"@ != "delivered"@ && "cancelled"@
            != "delivered"@,
{
    reveal_strlit("pending");
    reveal_strlit("confirmed");
    reveal_strlit("cancelled");
    reveal_strlit("shipped");
    reveal_strlit("delivered");
    reveal_strlit("paid");
    reveal_strlit("refunded");
    reveal_strlit("unpaid");
    assert("pending"@[0] != "shipped"@[0]);
    assert("confirmed"@[1] != "cancelled"@[1]);
    assert("confirmed"@[0] != "delivered"@[0]);
    assert("cancelled"@[0] != "delivered"@[0]);
}

/// The order state machine has final states: nothing leaves `delivered`,
/// `cancelled` or `refunded`, and nothing returns to the initial states
/// `pending` and `unpaid`; no state moves to itself.
pub proof fn lemma_transition_graph(current: Seq<char>, next: Seq<char>)
    ensures
        current == "delivered"@ ==> !allowed_transition(current, next),
        current == "cancelled"@ ==> !allowed_transition(current, next),
        current == "refunded"@ ==> !allowed_transition(current, next),
        next == "pending"@ ==> !allowed_transition(current, next),
        next == "unpaid"@ ==> !allowed_transition(current, next),
        !allowed_transition(current, current),
{
    lemma_status_words_distinct();
}

/// Every chain of allowed transitions is short: any status changes at most three
/// times (`pending → confirmed → shipped → delivered` is the longest chain).
pub proof fn lemma_transitions_terminate(a: Seq<char>, b: Seq<char>, c: Seq<char>, d: Seq<char>, e: Seq<char>)
    ensures
        !(allowed_transition(a, b) && allowed_transition(b, c) && allowed_transition(c, d)
            && allowed_transition(d, e)),
{
    lemma_status_words_distinct();
}


/// Only an order that has not shipped can be cancelled: `current → cancelled`
/// is allowed exactly from `pending` and `confirmed`; a shipped order can only
/// be delivered.
pub proof fn lemma_cancel_before_shipping(current: Seq<char>, next: Seq<char>)
    ensures
        allowed_transition(current, "cancelled"@) <==> (current == "pending"@ || current
            == "confirmed"@),
        allowed_transition("shipped"@, next) <==> next == "delivered"@,
        !allowed_transition("shipped"@, "cancelled"@),
        !allowed_transition("delivered"@, "cancelled"@),
{
    lemma_status_words_distinct();
    reveal_strlit("cancelled");
    reveal_strlit("delivered");
    reveal_strlit("refunded");
    reveal_strlit("paid");
    reveal_strlit("shipped");
    assert("cancelled"@ != "delivered"@);
    assert("cancelled"@ != "refunded"@);
    assert("cancelled"@ != "paid"@);
    assert("shipped"@ != "confirmed"@);
    assert("shipped"@ != "paid"@);
    assert("shipped"@ != "unpaid"@);
}

/// What each status may move to: `pending` to `confirmed` or `cancelled`,
/// `confirmed` to `shipped` or `cancelled`, `shipped` to `delivered`, `unpaid`
/// to `paid`, `paid` to `refunded`, and no other status anywhere.
pub proof fn lemma_successors(current: Seq<char>, next: Seq<char>)
    ensures
        current == "pending"@ ==> (allowed_transition(current, next) <==> (next == "confirmed"@
            || next == "cancelled"@)),
        current == "confirmed"@ ==> (allowed_transition(current, next) <==> (next == "shipped"@
            || next == "cancelled"@)),
        current == "shipped"@ ==> (allowed_transition(current, next) <==> next == "delivered"@),
        current == "unpaid"@ ==> (allowed_transition(current, next) <==> next == "paid"@),
        current == "paid"@ ==> (allowed_transition(current, next) <==> next == "refunded"@),
        !(current == "pending"@ || current == "confirmed"@ || current == "shipped"@ || current
            == "unpaid"@ || current == "paid"@) ==> !allowed_transition(current, next),
{
    lemma_status_words_distinct();
    reveal_strlit("paid");
    reveal_strlit("unpaid");
    reveal_strlit("pending");
    reveal_strlit("confirmed");
    reveal_strlit("shipped");
    assert("paid"@ != "unpaid"@);
    assert("pending"@ != "confirmed"@);
    assert("shipped"@ != "confirmed"@);
}

} // verus!
