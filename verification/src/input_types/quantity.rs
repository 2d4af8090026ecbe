//! Order quantities: whole numbers from 1 to 999.
use vstd::prelude::*;
use vstd::string::StringExecFns;
use crate::input_types::error::InputError;

verus! {

/// A quantity in `1..=999`.
#[derive(Debug, Clone, Copy, PartialEq, Eq, Structural)]
pub struct Quantity(u32);

impl Quantity {
    /// The number of units.
    pub closed spec fn value(&self) -> u32 {
        self.0
    }

    #[verifier::type_invariant]
    spec fn in_range(self) -> bool {
        1 <= self.0 <= 999
    }

    /// Accepts `1..=999`.
    pub fn new(val: i32) -> (r: Result<Self, InputError>)
        ensures
            1 <= val <= 999 ==> (r matches Ok(q) && q.value() == val),
            val <= 0 ==> (r matches Err(e) && e matches InputError::InvalidQuantity(m) && m@
                == "Cantitatea trebuie să fie strict pozitivă"@),
            val > 999 ==> (r matches Err(e) && e matches InputError::InvalidQuantity(m) && m@
                == "Cantitatea maximă e 999"@),
    {
        if val <= 0 {
            return Err(
                InputError::InvalidQuantity(
                    String::from_str("Cantitatea trebuie să fie strict pozitivă"),
                ),
            );
        }
        if val > 999 {
            return Err(InputError::InvalidQuantity(String::from_str("Cantitatea maximă e 999")));
        }
        Ok(Quantity(val as u32))
    }

    /// The number of units.
    pub fn get(&self) -> (r: u32)
        ensures
            r == self.value(),
            1 <= r <= 999,
    {
        proof {
            use_type_invariant(self);
        }
        self.0
    }
}

} // verus!
