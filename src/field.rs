use vstd::prelude::*;

use std::str::FromStr;

use snarkvm_curves::bls12_377::Fr;

verus! {

/// The decimal digits that the scalar field of BLS12-377 gives back after
/// reading `s` as a decimal number and reducing it modulo the field's prime;
/// `None` where `s` is not read as such a number.
pub uninterp spec fn fr_reduced_decimal(s: Seq<char>) -> Option<Seq<char>>;

/// The decimal digits of the field element minus one (the prime minus one).
pub const FIELD_MINUS_ONE_DIGITS: &'static str =
    "8444461749428370424248824938781546531375899335154063827935233455917409239040";

/// A digit string is canonical when the field reads it back as itself.
pub open spec fn canonical(d: Seq<char>) -> bool {
    fr_reduced_decimal(d) == Some(d)
}

/// Relies on snarkvm's `Fr::from_str` (a decimal number without leading
/// zeroes, taken modulo the prime) and on `Fr`'s `Display` (the decimal
/// digits of the reduced value). `0` is read as zero, and the digits `1` and
/// those of the prime minus one are below the prime, so all three come back
/// unchanged.
#[verifier::external_body]
fn fr_reduce_decimal(s: &str) -> (r: Option<String>)
    ensures
        match r {
            Some(t) => fr_reduced_decimal(s@) == Some(t@),
            None => fr_reduced_decimal(s@) is None,
        },
        s@ == "0"@ ==> r is Some && r->0@ == s@,
        s@ == "1"@ ==> r is Some && r->0@ == s@,
        s@ == FIELD_MINUS_ONE_DIGITS@ ==> r is Some && r->0@ == s@,
{
    Fr::from_str(s).ok().map(|f| f.to_string())
}

/// Why a decimal string is not a field element.
#[derive(Debug, Clone, Copy, PartialEq, Eq, Structural)]
pub enum FieldError {
    /// The field does not read the string as a number.
    NotANumber,
    /// The number is read, but it is not below the prime: its reduced
    /// digits differ from the string.
    NotCanonical,
}

/// An element of the scalar field of BLS12-377, held as its canonical
/// decimal digits.
#[derive(Debug, Clone)]
pub struct FieldElement {
    digits: String,
}

impl View for FieldElement {
    type V = Seq<char>;

    closed spec fn view(&self) -> Seq<char> {
        self.digits@
    }
}

/// What a check of `input` returns, given what the field read it as.
pub open spec fn decode_outcome(input: Seq<char>, reduced: Option<Seq<char>>) -> Result<(), FieldError> {
    match reduced {
        None => Err(FieldError::NotANumber),
        Some(t) => if t == input { Ok(()) } else { Err(FieldError::NotCanonical) },
    }
}

/// Decides whether `input` is canonical from what the field read it as.
pub fn check_canonical(input: &str, reduced: &Option<String>) -> (r: Result<(), FieldError>)
    ensures
        r == decode_outcome(input@, match reduced { Some(t) => Some(t@), None => None }),
{
    match reduced {
        None => Err(FieldError::NotANumber),
        Some(t) => {
            let owned = input.to_owned();
            if *t == owned {
                Ok(())
            } else {
                Err(FieldError::NotCanonical)
            }
        },
    }
}

impl FieldElement {
    /// An element is valid when its digits are canonical; every element
    /// that this type hands out is.
    pub open spec fn valid(&self) -> bool {
        canonical(self@)
    }

    /// Reads a canonical decimal field element: digits without leading
    /// zeroes, below the prime.
    pub fn from_decimal(s: &str) -> (r: Result<FieldElement, FieldError>)
        ensures
            match r {
                Ok(f) => f@ == s@ && canonical(s@),
                Err(e) => !canonical(s@) && Err::<(), FieldError>(e) == decode_outcome(
                    s@,
                    fr_reduced_decimal(s@),
                ),
            },
    {
        let reduced = fr_reduce_decimal(s);
        match check_canonical(s, &reduced) {
            Ok(()) => Ok(FieldElement { digits: s.to_owned() }),
            Err(e) => Err(e),
        }
    }

    /// The additive identity.
    pub fn zero() -> (r: FieldElement)
        ensures
            r@ == "0"@,
            canonical(r@),
    {
        proof {
            reveal_strlit("0");
        }
        let reduced = fr_reduce_decimal("0");
        FieldElement { digits: reduced.unwrap() }
    }

    /// The multiplicative identity.
    pub fn one() -> (r: FieldElement)
        ensures
            r@ == "1"@,
            canonical(r@),
    {
        proof {
            reveal_strlit("1");
        }
        let reduced = fr_reduce_decimal("1");
        FieldElement { digits: reduced.unwrap() }
    }

    /// The additive inverse of one.
    pub fn minus_one() -> (r: FieldElement)
        ensures
            r@ == FIELD_MINUS_ONE_DIGITS@,
            canonical(r@),
    {
        let reduced = fr_reduce_decimal(FIELD_MINUS_ONE_DIGITS);
        FieldElement { digits: reduced.unwrap() }
    }

    /// A copy of the element.
    pub fn duplicate(&self) -> (r: FieldElement)
        ensures
            r@ == self@,
    {
        FieldElement { digits: self.digits.clone() }
    }

    /// The decimal digits of the element.
    pub fn to_decimal(&self) -> (r: String)
        ensures
            r@ == self@,
    {
        self.digits.clone()
    }
}

} // verus!
