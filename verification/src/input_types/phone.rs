//! Romanian phone numbers: ten digits starting with `0`.
use vstd::prelude::*;
use vstd::string::StringExecFns;
use crate::input_types::error::InputError;
use crate::text::{decimal, u64_to_decimal, is_digit, str_chars, trim, trim_bounds};

verus! {

/// The ASCII digits of `s`, in order.
pub open spec fn digits_of(s: Seq<char>) -> Seq<char>
    decreases s.len(),
{
    if s.len() == 0 {
        s
    } else if is_digit(s.last()) {
        digits_of(s.drop_last()).push(s.last())
    } else {
        digits_of(s.drop_last())
    }
}

/// A phone number: exactly ten digits, the first being `0`.
#[derive(Debug, Clone, PartialEq, Eq)]
pub struct PhoneNumber(String);

impl PhoneNumber {
    /// The digits of the number.
    pub closed spec fn digits(&self) -> Seq<char> {
        self.0@
    }

    /// What parsing `s` gives: the ten digits, or the message of the refusal.
    pub open spec fn parse_outcome(s: Seq<char>) -> Result<Seq<char>, Seq<char>> {
        let t = trim(s);
        let d = digits_of(t);
        if t.len() == 0 {
            Err("Telefonul nu poate fi gol"@)
        } else if d.len() != 10 {
            Err("Telefonul trebuie să aibă 10 cifre (are "@ + decimal(d.len() as int) + ")"@)
        } else if d[0] != '0' {
            Err("Telefonul trebuie să înceapă cu 0"@)
        } else {
            Ok(d)
        }
    }

    /// `r` is the value that parsing `s` gives (refusals are `InvalidPhone`).
    pub open spec fn is_outcome(r: Result<Self, InputError>, s: Seq<char>) -> bool {
        match r {
            Ok(p) => Self::parse_outcome(s) == Ok::<Seq<char>, Seq<char>>(p.digits()),
            Err(e) => (e matches InputError::InvalidPhone(m) && Self::parse_outcome(s) == Err::<
                Seq<char>,
                Seq<char>,
            >(m@)),
        }
    }

    /// Keeps the digits of the trimmed input; there must be ten, starting with `0`.
    pub fn parse(s: &str) -> (r: Result<Self, InputError>)
        ensures
            Self::is_outcome(r, s@),
            r is Ok <==> (trim(s@).filter(|c: char| '0' <= c && c <= '9').len() == 10 && trim(
                s@,
            ).filter(|c: char| '0' <= c && c <= '9')[0] == '0'),
            r matches Ok(p) ==> p.digits() == trim(s@).filter(|c: char| '0' <= c && c <= '9'),
    {
        proof {
            lemma_phone_digits(s@);
        }
        let v = str_chars(s);
        let (lo, hi) = trim_bounds(v.as_slice());
        if lo == hi {
            return Err(InputError::InvalidPhone(String::from_str("Telefonul nu poate fi gol")));
        }
        let ghost t = v@.subrange(lo as int, hi as int);
        let mut digits = String::new();
        let mut count: usize = 0;
        let mut first: char = ' ';
        let mut i: usize = lo;
        while i < hi
            invariant
                lo <= i <= hi <= v.len(),
                t == v@.subrange(lo as int, hi as int),
                digits@ == digits_of(t.subrange(0, i - lo)),
                count == digits@.len(),
                count <= i - lo,
                count > 0 ==> first == digits@[0],
            decreases hi - i,
        {
            let c = v[i];
            proof {
                assert(t.subrange(0, i - lo + 1).drop_last() == t.subrange(0, i - lo));
                assert(t.subrange(0, i - lo + 1).last() == c);
            }
            if '0' <= c && c <= '9' {
                if count == 0 {
                    first = c;
                }
                digits.push(c);
                count += 1;
            }
            i += 1;
        }
        proof {
            assert(t.subrange(0, hi - lo) == t);
        }
        if count != 10 {
            let mut m = String::from_str("Telefonul trebuie să aibă 10 cifre (are ");
            let n = u64_to_decimal(count as u64);
            m.append(n.as_str());
            m.append(")");
            return Err(InputError::InvalidPhone(m));
        }
        if first != '0' {
            return Err(
                InputError::InvalidPhone(String::from_str("Telefonul trebuie să înceapă cu 0")),
            );
        }
        Ok(PhoneNumber(digits))
    }

    /// The ten digits.
    pub fn as_str(&self) -> (r: &str)
        ensures
            r@ == self.digits(),
    {
        self.0.as_str()
    }
}


/// The digits of a text are the text filtered to its ASCII digits.
proof fn lemma_digits_are_filter(s: Seq<char>)
    ensures
        digits_of(s) == s.filter(|c: char| '0' <= c && c <= '9'),
    decreases s.len(),
{
    reveal(Seq::filter);
    if s.len() > 0 {
        lemma_digits_are_filter(s.drop_last());
    }
}

/// A phone number is accepted exactly when the trimmed input holds exactly
/// ten ASCII digits, the first being `0`; the accepted number is those ten
/// digits, in order, with every other char dropped. Any other count of digits
/// is refused with that count in the message, never shortened or padded.
pub proof fn lemma_phone_digits(s: Seq<char>)
    ensures
        ({
            let ds = trim(s).filter(|c: char| '0' <= c && c <= '9');
            &&& PhoneNumber::parse_outcome(s) is Ok <==> (ds.len() == 10 && ds[0] == '0')
            &&& PhoneNumber::parse_outcome(s) matches Ok(d) ==> d == ds && d.len() == 10 && d[0]
                == '0' && forall|i: int| 0 <= i < 10 ==> '0' <= #[trigger] d[i] <= '9'
            &&& trim(s).len() > 0 && ds.len() != 10 ==> PhoneNumber::parse_outcome(s) == Err::<
                Seq<char>,
                Seq<char>,
            >("Telefonul trebuie să aibă 10 cifre (are "@ + decimal(ds.len() as int) + ")"@)
        }),
{
    let t = trim(s);
    lemma_digits_are_filter(t);
    let ds = t.filter(|c: char| '0' <= c && c <= '9');
    if ds.len() > 0 {
        assert(t.len() > 0);
    }
    assert forall|i: int| 0 <= i < ds.len() implies '0' <= #[trigger] ds[i] <= '9' by {
        t.filter_lemma(|c: char| '0' <= c && c <= '9');
    }
}

} // verus!
