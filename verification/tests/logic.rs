use marketplace_kit::logic::{LogicError, LogicFactory};

#[test]
fn ownership_matches() {
    assert!(LogicFactory::verify_ownership(&1, &1, "order").is_ok());
}

#[test]
fn ownership_mismatch() {
    assert_eq!(
        LogicFactory::verify_ownership(&1, &2, "order"),
        Err(LogicError::Forbidden)
    );
}

#[test]
fn admin_allowed() {
    assert!(LogicFactory::verify_admin("admin").is_ok());
}

#[test]
fn admin_denied() {
    assert_eq!(
        LogicFactory::verify_admin("user"),
        Err(LogicError::Unauthorized("admin".to_string()))
    );
}

#[test]
fn role_allowed() {
    assert!(LogicFactory::verify_role("admin", "admin").is_ok());
}

#[test]
fn role_denied() {
    assert_eq!(
        LogicFactory::verify_role("user", "admin"),
        Err(LogicError::Unauthorized("admin".to_string()))
    );
}

#[test]
fn not_paid_allowed() {
    assert!(LogicFactory::verify_not_paid("unpaid").is_ok());
    assert!(LogicFactory::verify_not_paid("pending").is_ok());
}

#[test]
fn not_paid_denied() {
    assert_eq!(
        LogicFactory::verify_not_paid("paid"),
        Err(LogicError::InvalidStatus("Comanda e deja plătită".to_string()))
    );
}

#[test]
fn valid_transitions() {
    assert!(LogicFactory::verify_status_transition("pending", "confirmed").is_ok());
    assert!(LogicFactory::verify_status_transition("pending", "cancelled").is_ok());
    assert!(LogicFactory::verify_status_transition("confirmed", "shipped").is_ok());
    assert!(LogicFactory::verify_status_transition("shipped", "delivered").is_ok());
    assert!(LogicFactory::verify_status_transition("paid", "refunded").is_ok());
}

#[test]
fn invalid_transition() {
    assert_eq!(
        LogicFactory::verify_status_transition("delivered", "confirmed"),
        Err(LogicError::InvalidStatus(
            "Tranziția delivered → confirmed nu e permisă".to_string()
        ))
    );
}

#[test]
fn stock_sufficient() {
    assert!(LogicFactory::verify_stock_available(10, 5).is_ok());
}

#[test]
fn stock_insufficient() {
    assert_eq!(
        LogicFactory::verify_stock_available(3, 5),
        Err(LogicError::InsufficientStock(3, 5))
    );
}

#[test]
fn qty_in_range() {
    assert!(LogicFactory::verify_qty_in_range(5, 1, 10).is_ok());
}

#[test]
fn qty_out_of_range() {
    assert_eq!(
        LogicFactory::verify_qty_in_range(0, 1, 10),
        Err(LogicError::LimitExceeded(
            "Cantitatea 0 nu e în intervalul [1, 10]".to_string()
        ))
    );
}

#[test]
fn max_value_ok() {
    assert!(LogicFactory::verify_max_value(100, 200, "total").is_ok());
}

#[test]
fn max_value_exceeded() {
    assert_eq!(
        LogicFactory::verify_max_value(300, 200, "total"),
        Err(LogicError::LimitExceeded(
            "total 300 depășește maximul 200".to_string()
        ))
    );
}

#[test]
fn found_some() {
    let result: Result<i32, LogicError> = LogicFactory::verify_found(Some(42), "item");
    assert_eq!(result, Ok(42));
}

#[test]
fn found_none() {
    let result: Result<i32, LogicError> = LogicFactory::verify_found(None, "item");
    assert_eq!(result, Err(LogicError::NotFound("item".to_string())));
}

#[test]
fn not_duplicate() {
    assert!(LogicFactory::verify_not_duplicate(false, "deja există").is_ok());
}

#[test]
fn duplicate() {
    assert_eq!(
        LogicFactory::verify_not_duplicate(true, "deja există"),
        Err(LogicError::Duplicate("deja există".to_string()))
    );
}

#[test]
fn logic_error_messages() {
    assert_eq!(LogicError::Forbidden.message(), "Acces interzis");
    assert_eq!(
        LogicError::Unauthorized("admin".to_string()).message(),
        "Rol insuficient: admin"
    );
    assert_eq!(
        LogicError::InvalidStatus("x".to_string()).message(),
        "Stare invalidă: x"
    );
    assert_eq!(
        LogicError::InsufficientStock(3, -5).message(),
        "Stoc insuficient: 3 disponibil, -5 cerut"
    );
    assert_eq!(
        LogicError::LimitExceeded("m".to_string()).message(),
        "Limită depășită: m"
    );
    assert_eq!(LogicError::NotFound("item".to_string()).message(), "Negăsit: item");
    assert_eq!(LogicError::Duplicate("d".to_string()).message(), "Duplicat: d");
    assert_eq!(LogicError::Other("plain".to_string()).message(), "plain");
}

#[test]
fn final_states_have_no_way_out() {
    for from in ["delivered", "cancelled", "refunded"] {
        for to in ["pending", "confirmed", "shipped", "delivered", "cancelled", "paid", "refunded", "unpaid"] {
            assert!(LogicFactory::verify_status_transition(from, to).is_err());
        }
    }
    assert!(LogicFactory::verify_status_transition("confirmed", "cancelled").is_ok());
    assert!(LogicFactory::verify_status_transition("unpaid", "paid").is_ok());
    assert!(LogicFactory::verify_status_transition("pending", "pending").is_err());
}

#[test]
fn range_and_limit_edges() {
    assert!(LogicFactory::verify_qty_in_range(1, 1, 10).is_ok());
    assert!(LogicFactory::verify_qty_in_range(10, 1, 10).is_ok());
    assert_eq!(
        LogicFactory::verify_qty_in_range(11, 1, 10),
        Err(LogicError::LimitExceeded("Cantitatea 11 nu e în intervalul [1, 10]".to_string()))
    );
    assert!(LogicFactory::verify_max_value(200, 200, "total").is_ok());
    assert!(LogicFactory::verify_stock_available(5, 5).is_ok());
}
