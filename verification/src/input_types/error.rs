//! Errors of the input parsers.
use vstd::prelude::*;
use vstd::string::StringExecFns;
use crate::text::concat3;

verus! {

/// Why a piece of user input was refused.
#[derive(Debug, Clone, PartialEq)]
pub enum InputError {
    EmptyEmail,
    InvalidEmail(String),
    InvalidPrice(String),
    InvalidQuantity(String),
    InvalidPhone(String),
    InvalidSlug(String),
    InvalidSessionId,
    InvalidUserId,
    InvalidOrderId,
    InvalidProductId,
    InvalidCategoryId,
    EmptyName,
    NameTooLong,
    EmptyAddress,
    AddressTooLong,
    NotesTooLong,
    PasswordTooShort,
    PasswordTooLong,
    PasswordNoUppercase,
    PasswordNoLowercase,
    PasswordNoDigit,
    InvalidUrl(String),
    InvalidToken(String),
    InvalidOrderStatus(String),
    InvalidPaymentStatus(String),
    InvalidCurrency(String),
    SearchQueryTooLong,
    EmptyBrand,
    BrandTooLong,
    EmptyProductName,
    ProductNameTooLong,
    /// A form field that is missing (its name).
    MissingField(String),
    Overflow(String),
    Custom(String),
}

/// The message of an `InputError`, as its display shows it.
pub open spec fn input_error_text(e: InputError) -> Seq<char> {
    match e {
        InputError::EmptyEmail => "Email-ul nu poate fi gol"@,
        InputError::InvalidEmail(m) => "Email invalid: "@ + m@,
        InputError::InvalidPrice(m) => "Preț invalid: "@ + m@,
        InputError::InvalidQuantity(m) => "Cantitate invalidă: "@ + m@,
        InputError::InvalidPhone(m) => "Telefon invalid: "@ + m@,
        InputError::InvalidSlug(m) => "Slug invalid: "@ + m@,
        InputError::InvalidSessionId => "Session ID invalid"@,
        InputError::InvalidUserId => "User ID invalid"@,
        InputError::InvalidOrderId => "Order ID invalid"@,
        InputError::InvalidProductId => "Product ID invalid"@,
        InputError::InvalidCategoryId => "Category ID invalid"@,
        InputError::EmptyName => "Numele nu poate fi gol"@,
        InputError::NameTooLong => "Numele e prea lung (max 200)"@,
        InputError::EmptyAddress => "Adresa nu poate fi goală"@,
        InputError::AddressTooLong => "Adresa e prea lungă (max 500)"@,
        InputError::NotesTooLong => "Notele sînt prea lungi (max 2000)"@,
        InputError::PasswordTooShort => "Parola trebuie să aibă minim 8 caractere"@,
        InputError::PasswordTooLong => "Parola e prea lungă (max 128)"@,
        InputError::PasswordNoUppercase => "Parola trebuie să conțină o literă mare"@,
        InputError::PasswordNoLowercase => "Parola trebuie să conțină o literă mică"@,
        InputError::PasswordNoDigit => "Parola trebuie să conțină o cifră"@,
        InputError::InvalidUrl(m) => "URL invalid: "@ + m@,
        InputError::InvalidToken(m) => "Token invalid: "@ + m@,
        InputError::InvalidOrderStatus(m) => "Status comandă invalid: "@ + m@,
        InputError::InvalidPaymentStatus(m) => "Status plată invalid: "@ + m@,
        InputError::InvalidCurrency(m) => "Valută invalidă: "@ + m@,
        InputError::SearchQueryTooLong => "Căutarea e prea lungă (max 200)"@,
        InputError::EmptyBrand => "Brandul nu poate fi gol"@,
        InputError::BrandTooLong => "Brandul e prea lung (max 100)"@,
        InputError::EmptyProductName => "Numele produsului nu poate fi gol"@,
        InputError::ProductNameTooLong => "Numele produsului e prea lung (max 200)"@,
        InputError::MissingField(f) => "Cîmpul '"@ + f@ + "' lipsește"@,
        InputError::Overflow(m) => "Overflow: "@ + m@,
        InputError::Custom(m) => m@,
    }
}

fn prefixed(p: &str, m: &String) -> (r: String)
    ensures
        r@ == p@ + m@,
{
    let mut r = String::from_str(p);
    r.append(m.as_str());
    r
}

impl InputError {
    /// The message shown to users for this error.
    pub fn message(&self) -> (r: String)
        ensures
            r@ == input_error_text(*self),
    {
        match self {
            InputError::EmptyEmail => String::from_str("Email-ul nu poate fi gol"),
            InputError::InvalidEmail(m) => prefixed("Email invalid: ", m),
            InputError::InvalidPrice(m) => prefixed("Preț invalid: ", m),
            InputError::InvalidQuantity(m) => prefixed("Cantitate invalidă: ", m),
            InputError::InvalidPhone(m) => prefixed("Telefon invalid: ", m),
            InputError::InvalidSlug(m) => prefixed("Slug invalid: ", m),
            InputError::InvalidSessionId => String::from_str("Session ID invalid"),
            InputError::InvalidUserId => String::from_str("User ID invalid"),
            InputError::InvalidOrderId => String::from_str("Order ID invalid"),
            InputError::InvalidProductId => String::from_str("Product ID invalid"),
            InputError::InvalidCategoryId => String::from_str("Category ID invalid"),
            InputError::EmptyName => String::from_str("Numele nu poate fi gol"),
            InputError::NameTooLong => String::from_str("Numele e prea lung (max 200)"),
            InputError::EmptyAddress => String::from_str("Adresa nu poate fi goală"),
            InputError::AddressTooLong => String::from_str("Adresa e prea lungă (max 500)"),
            InputError::NotesTooLong => String::from_str("Notele sînt prea lungi (max 2000)"),
            InputError::PasswordTooShort => String::from_str(
                "Parola trebuie să aibă minim 8 caractere",
            ),
            InputError::PasswordTooLong => String::from_str("Parola e prea lungă (max 128)"),
            InputError::PasswordNoUppercase => String::from_str(
                "Parola trebuie să conțină o literă mare",
            ),
            InputError::PasswordNoLowercase => String::from_str(
                "Parola trebuie să conțină o literă mică",
            ),
            InputError::PasswordNoDigit => String::from_str("Parola trebuie să conțină o cifră"),
            InputError::InvalidUrl(m) => prefixed("URL invalid: ", m),
            InputError::InvalidToken(m) => prefixed("Token invalid: ", m),
            InputError::InvalidOrderStatus(m) => prefixed("Status comandă invalid: ", m),
            InputError::InvalidPaymentStatus(m) => prefixed("Status plată invalid: ", m),
            InputError::InvalidCurrency(m) => prefixed("Valută invalidă: ", m),
            InputError::SearchQueryTooLong => String::from_str("Căutarea e prea lungă (max 200)"),
            InputError::EmptyBrand => String::from_str("Brandul nu poate fi gol"),
            InputError::BrandTooLong => String::from_str("Brandul e prea lung (max 100)"),
            InputError::EmptyProductName => String::from_str("Numele produsului nu poate fi gol"),
            InputError::ProductNameTooLong => String::from_str(
                "Numele produsului e prea lung (max 200)",
            ),
            InputError::MissingField(f) => concat3("Cîmpul '", f.as_str(), "' lipsește"),
            InputError::Overflow(m) => prefixed("Overflow: ", m),
            InputError::Custom(m) => String::from_str(m.as_str()),
        }
    }
}

} // verus!
