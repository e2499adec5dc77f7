//! Typed message arguments, and the rule by which a text token becomes one.

use vstd::prelude::*;
use crate::decimal::{decimal, decimal_i32, lemma_decimal_round_trip, parse_i32};

verus! {

/// One argument of a message.
///
/// A `Float` holds the bit pattern of an IEEE-754 single-precision number:
/// sign, eight bits of exponent and twenty-three of fraction, from the most
/// significant bit down.
#[derive(Clone, Debug, PartialEq, Eq)]
pub enum OscArg {
    Int(i32),
    Float(u32),
    String(String),
}

/// What an argument holds, as a mathematical value.
pub enum ArgValue {
    Int(i32),
    Float(u32),
    Text(Seq<char>),
}

impl View for OscArg {
    type V = ArgValue;

    open spec fn view(&self) -> ArgValue {
        match self {
            OscArg::Int(i) => ArgValue::Int(*i),
            OscArg::Float(bits) => ArgValue::Float(*bits),
            OscArg::String(s) => ArgValue::Text(s@),
        }
    }
}

/// The argument that a token stands for. `float_bits` is the token read as a
/// single-precision number, if it can be read as one.
///
/// The first reading that succeeds wins, in this order: a decimal integer of
/// 32 bits, a single-precision number, the token itself as text.
pub open spec fn inferred(token: Seq<char>, float_bits: Option<u32>) -> ArgValue {
    match decimal_i32(token) {
        Some(i) => ArgValue::Int(i),
        None => match float_bits {
            Some(bits) => ArgValue::Float(bits),
            None => ArgValue::Text(token),
        },
    }
}

impl OscArg {
    /// Turns a token into an argument. The caller reads the token as a
    /// single-precision number and hands the outcome over as `float_bits`:
    /// the bit pattern, or `None` where the token is no such number.
    ///
    /// Every token gives an argument. A token that is neither an integer nor
    /// a number comes back as text, character for character.
    pub fn from_str(s: &str, float_bits: Option<u32>) -> (r: Result<OscArg, String>)
        ensures
            r matches Ok(arg) && arg@ == inferred(s@, float_bits),
    {
        match parse_i32(s) {
            Some(i) => Ok(OscArg::Int(i)),
            None => match float_bits {
                Some(bits) => Ok(OscArg::Float(bits)),
                None => Ok(OscArg::String(s.to_owned())),
            },
        }
    }
}

/// An integer that fits in 32 bits, written in base ten, is inferred to be
/// that integer, whatever the token would be as a floating-point number.
pub proof fn lemma_infer_small_integer(n: i32, float_bits: Option<u32>)
    ensures
        inferred(decimal(n as int), float_bits) == ArgValue::Int(n),
{
    lemma_decimal_round_trip(n as int);
}

/// An integer that does not fit in 32 bits, written in base ten, is never
/// inferred to be an integer: it is the floating-point number that the token
/// reads as, and text only if it reads as none.
pub proof fn lemma_infer_large_integer(n: int, float_bits: Option<u32>)
    requires
        n < i32::MIN || n > i32::MAX,
    ensures
        !(inferred(decimal(n), float_bits) is Int),
        float_bits matches Some(bits) ==> inferred(decimal(n), float_bits) == ArgValue::Float(bits),
        float_bits is None ==> inferred(decimal(n), float_bits) == ArgValue::Text(decimal(n)),
{
    lemma_decimal_round_trip(n);
}

/// A token that is neither a 32-bit decimal integer nor a floating-point
/// number is inferred to be text, and the text is the token.
pub proof fn lemma_infer_text(token: Seq<char>)
    requires
        decimal_i32(token) is None,
    ensures
        inferred(token, None) == ArgValue::Text(token),
{
}

} // verus!
