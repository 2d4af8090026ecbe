//! Order-preserving bijection between `u32` and `i32`, used to store the whole
//! `u32` range in a signed 4-byte database column.
use vstd::prelude::*;

verus! {

/// Offset between the two domains: `|i32::MIN|`.
pub const SHIFT: u32 = 2_147_483_648u32;

/// Mathematical meaning of the stored value: `v - 2^31`.
pub open spec fn shifted(v: u32) -> int {
    v as int - 2_147_483_648
}

/// The `i32` under which a `u32` is stored.
pub open spec fn to_stored(v: u32) -> i32 {
    shifted(v) as i32
}

/// The `u32` that a stored `i32` stands for.
pub open spec fn from_stored(v: i32) -> u32 {
    (v as int + 2_147_483_648) as u32
}

/// Stores a `u32` as an `i32` by subtracting `2^31`.
pub fn u32_to_i32(val: u32) -> (r: i32)
    ensures
        r as int == shifted(val),
        r == to_stored(val),
{
    if val >= SHIFT {
        (val - SHIFT) as i32
    } else {
        let below: u32 = SHIFT - val;  // in 1..=2^31
        if below == SHIFT {
            i32::MIN
        } else {
            -(below as i32)
        }
    }
}

/// Recovers the `u32` that `u32_to_i32` stored.
pub fn i32_to_u32(val: i32) -> (r: u32)
    ensures
        shifted(r) == val as int,
        r == from_stored(val),
{
    if val >= 0 {
        (val as u32) + SHIFT
    } else if val == i32::MIN {
        0
    } else {
        let neg: u32 = (-val) as u32;
        SHIFT - neg
    }
}

} // verus!

verus! {

/// A `u32` that is stored as an `i32` (shifted by `2^31`) in the database.
#[derive(Clone, Copy, PartialEq, Eq, PartialOrd, Ord, Hash, Debug)]
pub struct PgU32(pub u32);

impl PgU32 {
    /// Wraps a `u32`.
    pub fn new(val: u32) -> (r: Self)
        ensures
            r.0 == val,
    {
        PgU32(val)
    }

    /// The wrapped `u32`.
    pub fn get(self) -> (r: u32)
        ensures
            r == self.0,
    {
        self.0
    }

    /// The value in decimal (as its display prints it).
    pub fn to_text(&self) -> (r: String)
        ensures
            r@ == crate::text::decimal_nat(self.0 as nat),
    {
        crate::text::u64_to_decimal(self.0 as u64)
    }

    /// The `i32` to store in the database.
    pub fn to_pg_i32(self) -> (r: i32)
        ensures
            r == to_stored(self.0),
    {
        u32_to_i32(self.0)
    }

    /// Rebuilds the value from the stored `i32`.
    pub fn from_pg_i32(val: i32) -> (r: Self)
        ensures
            r.0 == from_stored(val),
    {
        PgU32(i32_to_u32(val))
    }
}

impl From<u32> for PgU32 {
    fn from(val: u32) -> (r: Self) {
        PgU32(val)
    }
}

impl vstd::std_specs::convert::FromSpecImpl<u32> for PgU32 {
    open spec fn obeys_from_spec() -> bool {
        true
    }

    open spec fn from_spec(v: u32) -> Self {
        PgU32(v)
    }
}

impl From<PgU32> for u32 {
    fn from(val: PgU32) -> (r: Self) {
        val.0
    }
}

impl vstd::std_specs::convert::FromSpecImpl<PgU32> for u32 {
    open spec fn obeys_from_spec() -> bool {
        true
    }

    open spec fn from_spec(v: PgU32) -> Self {
        v.0
    }
}

impl From<i32> for PgU32 {
    fn from(val: i32) -> (r: Self) {
        PgU32::from_pg_i32(val)
    }
}

impl vstd::std_specs::convert::FromSpecImpl<i32> for PgU32 {
    open spec fn obeys_from_spec() -> bool {
        true
    }

    open spec fn from_spec(v: i32) -> Self {
        PgU32(from_stored(v))
    }
}

impl From<PgU32> for i32 {
    fn from(val: PgU32) -> (r: Self) {
        val.to_pg_i32()
    }
}

impl vstd::std_specs::convert::FromSpecImpl<PgU32> for i32 {
    open spec fn obeys_from_spec() -> bool {
        true
    }

    open spec fn from_spec(v: PgU32) -> Self {
        to_stored(v.0)
    }
}

/// Storing and reading back gives the original value, in both directions.
pub proof fn lemma_roundtrip(x: u32, y: i32)
    ensures
        from_stored(to_stored(x)) == x,
        to_stored(from_stored(y)) == y,
{
}

/// The encoding is injective: two different `u32` values are never stored under the same `i32`.
pub proof fn lemma_no_collisions(a: u32, b: u32)
    ensures
        to_stored(a) == to_stored(b) ==> a == b,
{
}

/// The encoding preserves order: `a < b` exactly when `to_stored(a) < to_stored(b)`.
pub proof fn lemma_order_preserved(a: u32, b: u32)
    ensures
        a < b <==> to_stored(a) < to_stored(b),
{
}

} // verus!
