//! Identifier types: UUID-based session, user and order ids, and the positive
//! integer ids of products and categories.
use vstd::prelude::*;
use crate::input_types::error::InputError;
use crate::text::{hex_lower_digit, hex_val, parse_i32, parse_i32_text, str_chars, string_from_range, trim, trim_bounds};

verus! {

#[verifier::external_type_specification]
#[verifier::external_body]
pub struct ExUuid(uuid::Uuid);

/// An ASCII hexadecimal digit.
pub open spec fn is_hex(c: char) -> bool {
    hex_val(c) is Some
}

/// `s` is a hyphenated UUID text: 32 hex digits in groups 8-4-4-4-12.
pub open spec fn hyphenated_uuid(s: Seq<char>) -> bool {
    &&& s.len() == 36
    &&& forall|i: int|
        0 <= i < 36 ==> if i == 8 || i == 13 || i == 18 || i == 23 {
            s[i] == '-'
        } else {
            is_hex(#[trigger] s[i])
        }
}

/// Case-insensitive match of `s` with the ASCII text `p` (`p` lower-case).
pub open spec fn ascii_ci_eq(s: Seq<char>, p: Seq<char>) -> bool {
    &&& s.len() == p.len()
    &&& forall|i: int|
        0 <= i < s.len() ==> (#[trigger] s[i] == p[i] || (p[i] >= 'a' && p[i] <= 'z' && s[i] as u32
            + 32 == p[i] as u32))
}

/// The UUID texts that `Uuid::parse_str` accepts: simple (32 hex digits),
/// hyphenated, braced `{...}` and `urn:uuid:` (prefix in any case) forms.
pub open spec fn uuid_text_valid(s: Seq<char>) -> bool {
    ||| s.len() == 32 && (forall|i: int| 0 <= i < 32 ==> is_hex(#[trigger] s[i]))
    ||| hyphenated_uuid(s)
    ||| s.len() == 38 && s[0] == '{' && s[37] == '}' && hyphenated_uuid(s.subrange(1, 37))
    ||| s.len() == 45 && ascii_ci_eq(s.subrange(0, 9), "urn:uuid:"@) && hyphenated_uuid(
        s.subrange(9, 45),
    )
}

/// The 32 hex digits of a valid UUID text, in order.
pub open spec fn uuid_hex_digits(s: Seq<char>) -> Seq<char> {
    let h = if s.len() == 36 {
        s
    } else if s.len() == 38 {
        s.subrange(1, 37)
    } else if s.len() == 45 {
        s.subrange(9, 45)
    } else {
        s
    };
    if s.len() == 32 {
        s
    } else {
        h.subrange(0, 8) + h.subrange(9, 13) + h.subrange(14, 18) + h.subrange(19, 23)
            + h.subrange(24, 36)
    }
}

/// The last `k` lower-case hex digits of `n`, with leading zeros.
pub open spec fn hex_fixed(n: nat, k: nat) -> Seq<char>
    decreases k,
{
    if k == 0 {
        Seq::empty()
    } else {
        hex_fixed(n / 16, (k - 1) as nat).push(hex_lower_digit(n % 16))
    }
}

/// The hyphenated text of a UUID with value `n` (what `Uuid`'s display prints):
/// 32 lower-case hex digits in groups 8-4-4-4-12.
pub open spec fn uuid_display(n: u128) -> Seq<char> {
    let h = hex_fixed(n as nat, 32);
    h.subrange(0, 8) + seq!['-'] + h.subrange(8, 12) + seq!['-'] + h.subrange(12, 16) + seq!['-']
        + h.subrange(16, 20) + seq!['-'] + h.subrange(20, 32)
}

fn hex_fixed_chars(n: u128, k: usize) -> (r: Vec<char>)
    ensures
        r@ == hex_fixed(n as nat, k as nat),
        r@.len() == k,
    decreases k,
{
    if k == 0 {
        Vec::new()
    } else {
        let mut r = hex_fixed_chars(n / 16, k - 1);
        let d = (n % 16) as u8;
        let c: char = if d < 10 {
            (d + 48) as char
        } else {
            (d + 87) as char
        };
        assert(c == hex_lower_digit((n % 16) as nat));
        r.push(c);
        r
    }
}

/// The hyphenated text of the UUID with value `n` (see `uuid_display`).
pub fn uuid_to_string(n: u128) -> (r: String)
    ensures
        r@ == uuid_display(n),
{
    let h = hex_fixed_chars(n, 32);
    let mut out = String::new();
    let mut i: usize = 0;
    while i < 32
        invariant
            i <= 32,
            h@ == hex_fixed(n as nat, 32),
            h@.len() == 32,
            out@ == if i <= 8 {
                h@.subrange(0, i as int)
            } else if i <= 12 {
                h@.subrange(0, 8) + seq!['-'] + h@.subrange(8, i as int)
            } else if i <= 16 {
                h@.subrange(0, 8) + seq!['-'] + h@.subrange(8, 12) + seq!['-'] + h@.subrange(12, i as int)
            } else if i <= 20 {
                h@.subrange(0, 8) + seq!['-'] + h@.subrange(8, 12) + seq!['-'] + h@.subrange(12, 16)
                    + seq!['-'] + h@.subrange(16, i as int)
            } else {
                h@.subrange(0, 8) + seq!['-'] + h@.subrange(8, 12) + seq!['-'] + h@.subrange(12, 16)
                    + seq!['-'] + h@.subrange(16, 20) + seq!['-'] + h@.subrange(20, i as int)
            },
        decreases 32 - i,
    {
        if i == 8 || i == 12 || i == 16 || i == 20 {
            out.push('-');
        }
        out.push(h[i]);
        i += 1;
        assert(out@ =~= if i <= 8 {
            h@.subrange(0, i as int)
        } else if i <= 12 {
            h@.subrange(0, 8) + seq!['-'] + h@.subrange(8, i as int)
        } else if i <= 16 {
            h@.subrange(0, 8) + seq!['-'] + h@.subrange(8, 12) + seq!['-'] + h@.subrange(12, i as int)
        } else if i <= 20 {
            h@.subrange(0, 8) + seq!['-'] + h@.subrange(8, 12) + seq!['-'] + h@.subrange(12, 16)
                + seq!['-'] + h@.subrange(16, i as int)
        } else {
            h@.subrange(0, 8) + seq!['-'] + h@.subrange(8, 12) + seq!['-'] + h@.subrange(12, 16)
                + seq!['-'] + h@.subrange(16, 20) + seq!['-'] + h@.subrange(20, i as int)
        });
    }
    out
}

/// The number that a string of hex digits denotes (big-endian).
pub open spec fn hex_digits_value(s: Seq<char>) -> nat
    decreases s.len(),
{
    if s.len() == 0 {
        0
    } else {
        16 * hex_digits_value(s.drop_last()) + match hex_val(s.last()) {
            Some(v) => v as nat,
            None => 0,
        }
    }
}

/// The 128-bit value (`Uuid::as_u128`) of a valid UUID text.
pub open spec fn uuid_text_value(s: Seq<char>) -> u128 {
    hex_digits_value(uuid_hex_digits(s)) as u128
}

/// Calls `uuid::Uuid::parse_str` and reads the result as a `u128` (`Uuid::as_u128`).
#[verifier::external_body]
pub(crate) fn uuid_parse(s: &str) -> (r: Option<u128>)
    ensures
        r is Some <==> uuid_text_valid(s@),
        r matches Some(v) ==> v == uuid_text_value(s@),
{
    uuid::Uuid::parse_str(s).ok().map(|u| u.as_u128())
}

/// A version-4 (random) UUID value with the RFC 4122 variant: the four
/// version bits (76 to 79) hold 4 and the two variant bits (62, 63) hold `10`.
pub open spec fn is_random_uuid(v: u128) -> bool {
    &&& v & 0xF000_0000_0000_0000_0000u128 == 0x4000_0000_0000_0000_0000u128
    &&& v & 0xC000_0000_0000_0000u128 == 0x8000_0000_0000_0000u128
}

/// Calls `uuid::Uuid::new_v4`: a random version-4 UUID, as a `u128`. Its
/// source masks random bits and sets the version and variant bits, so the
/// contract claims those bits; the other 122 bits come from the system's
/// random source and are left unsaid.
#[verifier::external_body]
pub(crate) fn uuid_random() -> (r: u128)
    ensures
        is_random_uuid(r),
{
    uuid::Uuid::new_v4().as_u128()
}

/// The `uuid::Uuid` whose 128-bit value is `value` (what `Uuid::from_u128` builds).
pub uninterp spec fn uuid_of(value: u128) -> uuid::Uuid;

/// Calls `uuid::Uuid::from_u128`: the UUID with this 128-bit value, which
/// depends on the value alone.
#[verifier::external_body]
pub(crate) fn uuid_from_value(v: u128) -> (r: uuid::Uuid)
    ensures
        r == uuid_of(v),
{
    uuid::Uuid::from_u128(v)
}

/// What parsing a UUID identifier gives: the trimmed text must be a UUID text.
pub open spec fn uuid_id_value(s: Seq<char>) -> Option<u128> {
    let t = trim(s);
    if t.len() > 0 && uuid_text_valid(t) {
        Some(uuid_text_value(t))
    } else {
        None
    }
}

/// Shared parsing of the UUID-based identifiers.
fn parse_uuid_id(s: &str) -> (r: Option<u128>)
    ensures
        r == uuid_id_value(s@),
{
    let v = str_chars(s);
    let (lo, hi) = trim_bounds(v.as_slice());
    if lo == hi {
        return None;
    }
    let t = string_from_range(v.as_slice(), lo, hi);
    uuid_parse(t.as_str())
}

/// Identifier of an anonymous session.
#[derive(Debug, Clone, Copy, PartialEq, Eq, Hash)]
pub struct SessionId(pub u128);

/// Identifier of a user.
#[derive(Debug, Clone, Copy, PartialEq, Eq, Hash)]
pub struct UserId(pub u128);

/// Identifier of an order.
#[derive(Debug, Clone, Copy, PartialEq, Eq, Hash)]
pub struct OrderId(pub u128);

impl SessionId {
    /// A fresh random identifier.
    pub fn new() -> (r: Self)
        ensures
            is_random_uuid(r.0),
    {
        SessionId(uuid_random())
    }

    /// Parses a UUID text (surrounding white space is ignored).
    pub fn parse(s: &str) -> (r: Result<Self, InputError>)
        ensures
            uuid_id_value(s@) matches Some(v) ==> r == Ok::<Self, InputError>(SessionId(v)),
            uuid_id_value(s@) is None ==> r == Err::<Self, InputError>(InputError::InvalidSessionId),
    {
        match parse_uuid_id(s) {
            Some(v) => Ok(SessionId(v)),
            None => Err(InputError::InvalidSessionId),
        }
    }

    /// The identifier as a `uuid::Uuid`.
    pub fn as_uuid(&self) -> (r: uuid::Uuid)
        ensures
            r == uuid_of(self.0),
    {
        uuid_from_value(self.0)
    }
}

impl UserId {
    /// A fresh random identifier.
    pub fn new() -> (r: Self)
        ensures
            is_random_uuid(r.0),
    {
        UserId(uuid_random())
    }

    /// Parses a UUID text (surrounding white space is ignored).
    pub fn parse(s: &str) -> (r: Result<Self, InputError>)
        ensures
            uuid_id_value(s@) matches Some(v) ==> r == Ok::<Self, InputError>(UserId(v)),
            uuid_id_value(s@) is None ==> r == Err::<Self, InputError>(InputError::InvalidUserId),
    {
        match parse_uuid_id(s) {
            Some(v) => Ok(UserId(v)),
            None => Err(InputError::InvalidUserId),
        }
    }

    /// The identifier as a `uuid::Uuid`.
    pub fn as_uuid(&self) -> (r: uuid::Uuid)
        ensures
            r == uuid_of(self.0),
    {
        uuid_from_value(self.0)
    }
}

impl OrderId {
    /// A fresh random identifier.
    pub fn new() -> (r: Self)
        ensures
            is_random_uuid(r.0),
    {
        OrderId(uuid_random())
    }

    /// Parses a UUID text (surrounding white space is ignored).
    pub fn parse(s: &str) -> (r: Result<Self, InputError>)
        ensures
            uuid_id_value(s@) matches Some(v) ==> r == Ok::<Self, InputError>(OrderId(v)),
            uuid_id_value(s@) is None ==> r == Err::<Self, InputError>(InputError::InvalidOrderId),
    {
        match parse_uuid_id(s) {
            Some(v) => Ok(OrderId(v)),
            None => Err(InputError::InvalidOrderId),
        }
    }

    /// The identifier as a `uuid::Uuid`.
    pub fn as_uuid(&self) -> (r: uuid::Uuid)
        ensures
            r == uuid_of(self.0),
    {
        uuid_from_value(self.0)
    }
}

/// What parsing a numeric identifier gives: a strictly positive `i32`, after trimming.
pub open spec fn positive_id_value(s: Seq<char>) -> Option<i32> {
    match parse_i32(trim(s)) {
        Some(v) => if v > 0 {
            Some(v)
        } else {
            None
        },
        None => None,
    }
}

fn parse_positive_id(s: &str) -> (r: Option<i32>)
    ensures
        r == positive_id_value(s@),
{
    let v = str_chars(s);
    let (lo, hi) = trim_bounds(v.as_slice());
    if lo == hi {
        return None;
    }
    let t = string_from_range(v.as_slice(), lo, hi);
    match parse_i32_text(t.as_str()) {
        Some(x) => if x <= 0 {
            None
        } else {
            Some(x)
        },
        None => None,
    }
}

/// Identifier of a product: a strictly positive integer.
#[derive(Debug, Clone, Copy, PartialEq, Eq, Hash, Structural)]
pub struct ProductId(i32);

impl ProductId {
    /// Accepts strictly positive values.
    pub fn new(val: i32) -> (r: Result<Self, InputError>)
        ensures
            val > 0 ==> (r matches Ok(id) && id.get_spec() == val),
            val <= 0 ==> r == Err::<Self, InputError>(InputError::InvalidProductId),
    {
        if val <= 0 {
            return Err(InputError::InvalidProductId);
        }
        Ok(ProductId(val))
    }

    /// Parses a decimal text (surrounding white space is ignored).
    pub fn parse(s: &str) -> (r: Result<Self, InputError>)
        ensures
            positive_id_value(s@) matches Some(v) ==> (r matches Ok(id) && id.get_spec() == v),
            positive_id_value(s@) is None ==> r == Err::<Self, InputError>(
                InputError::InvalidProductId,
            ),
    {
        match parse_positive_id(s) {
            Some(v) => Ok(ProductId(v)),
            None => Err(InputError::InvalidProductId),
        }
    }

    /// The value of the identifier.
    pub closed spec fn get_spec(&self) -> i32 {
        self.0
    }

    /// The value of the identifier.
    pub fn get(&self) -> (r: i32)
        ensures
            r == self.get_spec(),
            r > 0,
    {
        proof {
            use_type_invariant(self);
        }
        self.0
    }

    #[verifier::type_invariant]
    spec fn positive(self) -> bool {
        self.0 > 0
    }
}

/// Identifier of a category: a strictly positive integer.
#[derive(Debug, Clone, Copy, PartialEq, Eq, Hash, Structural)]
pub struct CategoryId(i32);

impl CategoryId {
    /// Accepts strictly positive values.
    pub fn new(val: i32) -> (r: Result<Self, InputError>)
        ensures
            val > 0 ==> (r matches Ok(id) && id.get_spec() == val),
            val <= 0 ==> r == Err::<Self, InputError>(InputError::InvalidCategoryId),
    {
        if val <= 0 {
            return Err(InputError::InvalidCategoryId);
        }
        Ok(CategoryId(val))
    }

    /// Parses a decimal text (surrounding white space is ignored).
    pub fn parse(s: &str) -> (r: Result<Self, InputError>)
        ensures
            positive_id_value(s@) matches Some(v) ==> (r matches Ok(id) && id.get_spec() == v),
            positive_id_value(s@) is None ==> r == Err::<Self, InputError>(
                InputError::InvalidCategoryId,
            ),
    {
        match parse_positive_id(s) {
            Some(v) => Ok(CategoryId(v)),
            None => Err(InputError::InvalidCategoryId),
        }
    }

    /// The value of the identifier.
    pub closed spec fn get_spec(&self) -> i32 {
        self.0
    }

    /// The value of the identifier.
    pub fn get(&self) -> (r: i32)
        ensures
            r == self.get_spec(),
            r > 0,
    {
        proof {
            use_type_invariant(self);
        }
        self.0
    }

    #[verifier::type_invariant]
    spec fn positive(self) -> bool {
        self.0 > 0
    }
}

} // verus!
