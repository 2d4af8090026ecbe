//! The single entry point for raw user input (`InputFactory`) and the checks on
//! query parameters (`QueryValidator`).
use vstd::prelude::*;
use crate::input_types::currency::{currency_of_code, Currency};
use crate::input_types::error::InputError;
use crate::input_types::id_types::{uuid_from_value, uuid_id_value, uuid_parse, uuid_text_valid, CategoryId, OrderId, ProductId, SessionId, UserId};
use crate::input_types::parser::split_on;
use crate::input_types::phone::PhoneNumber;
use crate::input_types::quantity::Quantity;
use crate::input_types::text_types::{
    Brand, Notes, ProductName, SearchQuery, ShippingAddress, ShippingName,
};
use crate::text::{byte_len, is_ctrl, str_chars, string_byte_len, uppercase};

verus! {

/// Turns raw strings and numbers from requests into validated values.
pub struct InputFactory;

impl InputFactory {
    /// A quantity in `1..=999`.
    pub fn parse_qty(val: i32) -> (r: Result<Quantity, InputError>)
        ensures
            1 <= val <= 999 ==> (r matches Ok(q) && q.value() == val),
            val <= 0 ==> (r matches Err(e) && e matches InputError::InvalidQuantity(m) && m@
                == "Cantitatea trebuie să fie strict pozitivă"@),
            val > 999 ==> (r matches Err(e) && e matches InputError::InvalidQuantity(m) && m@
                == "Cantitatea maximă e 999"@),
    {
        Quantity::new(val)
    }

    /// A Romanian phone number.
    pub fn parse_phone(s: &str) -> (r: Result<PhoneNumber, InputError>)
        ensures
            PhoneNumber::is_outcome(r, s@),
    {
        PhoneNumber::parse(s)
    }

    /// A session id (UUID text).
    pub fn parse_session_id(s: &str) -> (r: Result<SessionId, InputError>)
        ensures
            uuid_id_value(s@) matches Some(v) ==> r == Ok::<SessionId, InputError>(SessionId(v)),
            uuid_id_value(s@) is None ==> r == Err::<SessionId, InputError>(
                InputError::InvalidSessionId,
            ),
    {
        SessionId::parse(s)
    }

    /// A user id (UUID text).
    pub fn parse_user_id(s: &str) -> (r: Result<UserId, InputError>)
        ensures
            uuid_id_value(s@) matches Some(v) ==> r == Ok::<UserId, InputError>(UserId(v)),
            uuid_id_value(s@) is None ==> r == Err::<UserId, InputError>(InputError::InvalidUserId),
    {
        UserId::parse(s)
    }

    /// An order id (UUID text).
    pub fn parse_order_id(s: &str) -> (r: Result<OrderId, InputError>)
        ensures
            uuid_id_value(s@) matches Some(v) ==> r == Ok::<OrderId, InputError>(OrderId(v)),
            uuid_id_value(s@) is None ==> r == Err::<OrderId, InputError>(
                InputError::InvalidOrderId,
            ),
    {
        OrderId::parse(s)
    }

    /// A product id (strictly positive).
    pub fn parse_product_id(val: i32) -> (r: Result<ProductId, InputError>)
        ensures
            val > 0 ==> (r matches Ok(id) && id.get_spec() == val),
            val <= 0 ==> r == Err::<ProductId, InputError>(InputError::InvalidProductId),
    {
        ProductId::new(val)
    }

    /// A category id (strictly positive).
    pub fn parse_category_id(val: i32) -> (r: Result<CategoryId, InputError>)
        ensures
            val > 0 ==> (r matches Ok(id) && id.get_spec() == val),
            val <= 0 ==> r == Err::<CategoryId, InputError>(InputError::InvalidCategoryId),
    {
        CategoryId::new(val)
    }

    /// A shipping name.
    pub fn parse_name(s: &str) -> (r: Result<ShippingName, InputError>)
        ensures
            ShippingName::is_outcome(r, ShippingName::parse_outcome(s@)),
    {
        ShippingName::parse(s)
    }

    /// A shipping address.
    pub fn parse_address(s: &str) -> (r: Result<ShippingAddress, InputError>)
        ensures
            ShippingAddress::is_outcome(r, ShippingAddress::parse_outcome(s@)),
    {
        ShippingAddress::parse(s)
    }

    /// Order notes.
    pub fn parse_notes(s: &str) -> (r: Result<Notes, InputError>)
        ensures
            Notes::is_outcome(r, Notes::parse_outcome(s@)),
    {
        Notes::parse(s)
    }

    /// A brand.
    pub fn parse_brand(s: &str) -> (r: Result<Brand, InputError>)
        ensures
            Brand::is_outcome(r, Brand::parse_outcome(s@)),
    {
        Brand::parse(s)
    }

    /// A product name.
    pub fn parse_product_name(s: &str) -> (r: Result<ProductName, InputError>)
        ensures
            ProductName::is_outcome(r, ProductName::parse_outcome(s@)),
    {
        ProductName::parse(s)
    }

    /// A search query.
    pub fn parse_search(s: &str) -> (r: Result<SearchQuery, InputError>)
        ensures
            SearchQuery::is_outcome(r, SearchQuery::parse_outcome(s@)),
    {
        SearchQuery::parse(s)
    }

    /// A currency code (any case).
    pub fn parse_currency(s: &str) -> (r: Result<Currency, InputError>)
        ensures
            r is Ok <==> currency_of_code(uppercase(s@)) is Some,
            r matches Ok(c) ==> currency_of_code(uppercase(s@)) == Some(c),
            r matches Err(e) ==> (e matches InputError::InvalidCurrency(m) && m@
                == "Valută nerecunoscută: "@ + s@),
    {
        Currency::parse(s)
    }
}

/// Number of occurrences of `c` in `s`.
pub open spec fn count_char(s: Seq<char>, c: char) -> nat
    decreases s.len(),
{
    if s.len() == 0 {
        0
    } else {
        count_char(s.drop_last(), c) + if s.last() == c {
            1nat
        } else {
            0nat
        }
    }
}

/// `str::split(c)` yields one piece more than there are separators.
pub proof fn lemma_split_count(s: Seq<char>, c: char)
    ensures
        split_on(s, c).len() == count_char(s, c) + 1,
    decreases s.len(),
{
    if s.len() > 0 {
        lemma_split_count(s.drop_last(), c);
    }
}

/// `s` contains a control char (Unicode `Cc`, the tab among them).
pub open spec fn has_control(s: Seq<char>) -> bool {
    exists|i: int| 0 <= i < s.len() && is_ctrl(#[trigger] s[i])
}

/// Checks query parameters; invalid values are replaced by a safe default.
pub struct QueryValidator;

impl QueryValidator {
    /// A page number: values below 1 (and a missing value) give `default`.
    pub fn page(val: Option<i64>, default: i64) -> (r: i64)
        ensures
            r == match val {
                Some(p) => if p >= 1 {
                    p
                } else {
                    default
                },
                None => default,
            },
    {
        match val {
            Some(p) if p >= 1 => p,
            Some(_) => default,
            None => default,
        }
    }

    /// A UUID text (as `Uuid::parse_str` accepts it; no trimming), or `None`.
    pub fn uuid(val: Option<String>, name: &str) -> (r: Option<uuid::Uuid>)
        ensures
            r is Some <==> (val matches Some(s) && uuid_text_valid(s@)),
    {
        match val {
            Some(s) => match uuid_parse(s.as_str()) {
                Some(v) => Some(uuid_from_value(v)),
                None => None,
            },
            None => None,
        }
    }

    /// A token made of exactly three `.`-separated parts (the shape of a JWT).
    pub fn token(val: Option<String>, name: &str) -> (r: Option<String>)
        ensures
            r == match val {
                Some(t) => if split_on(t@, '.').len() == 3 {
                    Some(t)
                } else {
                    None
                },
                None => None,
            },
    {
        match val {
            Some(t) => {
                let v = str_chars(t.as_str());
                let mut dots: usize = 0;
                let mut i: usize = 0;
                while i < v.len()
                    invariant
                        i <= v.len(),
                        dots == count_char(v@.subrange(0, i as int), '.'),
                        dots <= i,
                    decreases v.len() - i,
                {
                    proof {
                        assert(v@.subrange(0, i + 1).drop_last() == v@.subrange(0, i as int));
                    }
                    if v[i] == '.' {
                        dots += 1;
                    }
                    i += 1;
                }
                proof {
                    assert(v@.subrange(0, v.len() as int) == v@);
                    lemma_split_count(t@, '.');
                }
                if dots == 2 {
                    Some(t)
                } else {
                    None
                }
            },
            None => None,
        }
    }

    /// A session id of at most 256 bytes.
    pub fn session_id(val: Option<String>, name: &str) -> (r: Option<String>)
        ensures
            r == match val {
                Some(s) => if byte_len(s@) > 256 {
                    None
                } else {
                    Some(s)
                },
                None => None,
            },
    {
        match val {
            Some(s) => if string_byte_len(&s) > 256 {
                None
            } else {
                Some(s)
            },
            None => None,
        }
    }

    /// A header value of at most `max_len` bytes without control chars (a tab is one).
    #[verifier::loop_isolation(false)]
    pub fn header(val: Option<String>, name: &str, max_len: usize) -> (r: Option<String>)
        ensures
            r == match val {
                Some(s) => if byte_len(s@) > max_len || has_control(s@) {
                    None
                } else {
                    Some(s)
                },
                None => None,
            },
    {
        match val {
            Some(s) => {
                if string_byte_len(&s) > max_len {
                    return None;
                }
                let v = str_chars(s.as_str());
                let mut i: usize = 0;
                while i < v.len()
                    invariant
                        i <= v.len(),
                        v@ == s@,
                        forall|j: int| 0 <= j < i ==> !is_ctrl(#[trigger] v@[j]),
                    decreases v.len() - i,
                {
                    let c = v[i];
                    if c <= '\u{1f}' || ('\u{7f}' <= c && c <= '\u{9f}') {
                        assert(is_ctrl(s@[i as int]));
                        return None;
                    }
                    i += 1;
                }
                Some(s)
            },
            None => None,
        }
    }
}

} // verus!
