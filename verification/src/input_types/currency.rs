//! The currencies the shop accepts.
use vstd::prelude::*;
use vstd::string::StringExecFns;
use crate::input_types::error::InputError;
use crate::text::{str_eq, to_uppercase, uppercase};

verus! {

/// A supported currency.
#[derive(Debug, Clone, Copy, PartialEq, Eq, Structural)]
pub enum Currency {
    Ron,
    Usd,
    Eur,
}

/// The currency whose code is `upper` (already upper-cased), if any.
pub open spec fn currency_of_code(upper: Seq<char>) -> Option<Currency> {
    if upper == "RON"@ {
        Some(Currency::Ron)
    } else if upper == "USD"@ {
        Some(Currency::Usd)
    } else if upper == "EUR"@ {
        Some(Currency::Eur)
    } else {
        None
    }
}

/// The code of a currency.
pub open spec fn currency_code(c: Currency) -> Seq<char> {
    match c {
        Currency::Ron => "RON"@,
        Currency::Usd => "USD"@,
        Currency::Eur => "EUR"@,
    }
}

impl Currency {
    /// Parses a currency code, case-insensitively (the input is upper-cased first).
    pub fn parse(s: &str) -> (r: Result<Self, InputError>)
        ensures
            r is Ok <==> currency_of_code(uppercase(s@)) is Some,
            r matches Ok(c) ==> currency_of_code(uppercase(s@)) == Some(c),
            r matches Err(e) ==> (e matches InputError::InvalidCurrency(m) && m@
                == "Valută nerecunoscută: "@ + s@),
    {
        let upper = to_uppercase(s);
        Self::parse_uppercased(s, upper.as_str())
    }

    /// The step of `parse` after upper-casing: `upper` is the upper-case form of `s`.
    pub fn parse_uppercased(s: &str, upper: &str) -> (r: Result<Self, InputError>)
        ensures
            r is Ok <==> currency_of_code(upper@) is Some,
            r matches Ok(c) ==> currency_of_code(upper@) == Some(c),
            r matches Err(e) ==> (e matches InputError::InvalidCurrency(m) && m@
                == "Valută nerecunoscută: "@ + s@),
    {
        if str_eq(upper, "RON") {
            Ok(Currency::Ron)
        } else if str_eq(upper, "USD") {
            Ok(Currency::Usd)
        } else if str_eq(upper, "EUR") {
            Ok(Currency::Eur)
        } else {
            let mut m = String::from_str("Valută nerecunoscută: ");
            m.append(s);
            Err(InputError::InvalidCurrency(m))
        }
    }

    /// The currency code (`"RON"`, `"USD"` or `"EUR"`).
    pub fn as_str(&self) -> (r: &'static str)
        ensures
            r@ == currency_code(*self),
    {
        match self {
            Currency::Ron => "RON",
            Currency::Usd => "USD",
            Currency::Eur => "EUR",
        }
    }

    /// The text that displaying a currency shows: its code.
    pub fn to_text(&self) -> (r: String)
        ensures
            r@ == currency_code(*self),
    {
        String::from_str(self.as_str())
    }
}

/// Every currency's code parses back to that currency.
pub proof fn lemma_currency_code_roundtrip(c: Currency)
    ensures
        currency_of_code(currency_code(c)) == Some(c),
{
    reveal_strlit("RON");
    reveal_strlit("USD");
    reveal_strlit("EUR");
    assert("RON"@[0] != "USD"@[0] && "RON"@[0] != "EUR"@[0] && "USD"@[0] != "EUR"@[0]);
}

} // verus!
