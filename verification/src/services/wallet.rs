//! The wallet: balances in bani, deposits and withdrawals.
use vstd::prelude::*;
use vstd::string::StringExecFns;
use crate::input_types::id_types::{uuid_display, uuid_to_string};
use crate::text::concat2;

verus! {

/// Why a wallet operation failed.
#[derive(Debug, Clone, PartialEq)]
pub enum WalletError {
    /// The database failed (its message).
    Database(String),
    /// No user has this id.
    UserNotFound(u128),
    /// The balance is lower than the amount to withdraw.
    InsufficientBalance,
    /// The amount is not positive.
    InvalidAmount,
}

/// The message of a wallet error, as its display shows it.
pub open spec fn wallet_error_text(e: WalletError) -> Seq<char> {
    match e {
        WalletError::Database(m) => "Database error: "@ + m@,
        WalletError::UserNotFound(id) => "User not found: "@ + uuid_display(id),
        WalletError::InsufficientBalance => "Insufficient balance"@,
        WalletError::InvalidAmount => "Amount must be positive"@,
    }
}

impl WalletError {
    /// The message shown for this error.
    pub fn message(&self) -> (r: String)
        ensures
            r@ == wallet_error_text(*self),
    {
        match self {
            WalletError::Database(m) => concat2("Database error: ", m.as_str()),
            WalletError::UserNotFound(id) => {
                let t = uuid_to_string(*id);
                concat2("User not found: ", t.as_str())
            },
            WalletError::InsufficientBalance => String::from_str("Insufficient balance"),
            WalletError::InvalidAmount => String::from_str("Amount must be positive"),
        }
    }
}

/// A balance as shown to its owner.
#[derive(Debug, Clone)]
pub struct BalanceResponse {
    /// In bani.
    pub balance: i64,
    pub currency: String,
}

/// A deposit to make.
#[derive(Debug, Clone)]
pub struct DepositRequest {
    /// In bani.
    pub amount: i64,
    pub description: Option<String>,
}

/// Deposits and withdrawals need a positive amount.
pub fn check_amount(amount: i64) -> (r: Result<(), WalletError>)
    ensures
        amount <= 0 ==> r == Err::<(), WalletError>(WalletError::InvalidAmount),
        amount > 0 ==> r is Ok,
{
    if amount <= 0 {
        Err(WalletError::InvalidAmount)
    } else {
        Ok(())
    }
}

/// The outcome of a withdrawal: the database records it only when the
/// balance covers the amount; no record means the balance was too low.
pub fn withdrawal_outcome<T>(recorded: Option<T>) -> (r: Result<T, WalletError>)
    ensures
        recorded is None ==> r == Err::<T, WalletError>(WalletError::InsufficientBalance),
        recorded matches Some(t) ==> r == Ok::<T, WalletError>(t),
{
    match recorded {
        Some(t) => Ok(t),
        None => Err(WalletError::InsufficientBalance),
    }
}

} // verus!
