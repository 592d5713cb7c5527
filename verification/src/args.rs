//! Command-line arguments: what the option parsers share.

use crate::model::Backend;
use crate::num;
use crate::num::{parse_i32, parse_u64};
use crate::text::{chars_of, str_eq};
use vstd::prelude::*;
use vstd::string::*;

verus! {

/// One argument, with the 32-bit float that its text writes, if it writes one.
#[derive(Debug)]
pub struct Arg {
    pub text: String,
    /// The bits of the float.
    pub f32_bits: Option<u32>,
}

/// The bits of 1.0.
pub const F32_ONE: u32 = 0x3f80_0000;

/// The bits of 100.0.
pub const F32_HUNDRED: u32 = 0x42c8_0000;

/// The bits of 0.05.
pub const F32_TWENTIETH: u32 = 0x3d4c_cccd;

/// The bits of -0.0.
pub const F32_NEG_ZERO: u32 = 0x8000_0000;

/// The float of bits `bits` lies between 0 and the float of bits `max`. Among
/// floats that are not negative the order is that of their bits.
pub open spec fn float_within(bits: u32, max: u32) -> bool {
    bits <= max || bits == F32_NEG_ZERO
}

/// The complaint about the value of an option.
pub open spec fn invalid_value(flag: Seq<char>, value: Seq<char>) -> Seq<char> {
    "invalid value for "@ + flag + ": "@ + value
}

/// The complaint about the value of an option.
pub fn invalid_value_text(flag: &str, value: &str) -> (r: String)
    ensures
        r@ == invalid_value(flag@, value@),
{
    let mut r = String::from_str("invalid value for ");
    r.append(flag);
    r.append(": ");
    r.append(value);
    r
}

/// The outcome of reading a value: it, or the message `m`.
pub open spec fn value_or<T>(v: Option<T>, m: Seq<char>, r: Result<T, String>) -> bool {
    match (v, r) {
        (Some(x), Ok(y)) => x == y,
        (None, Err(e)) => e@ == m,
        _ => false,
    }
}

/// The integer above 0 that `s` writes.
pub open spec fn positive_i32(s: Seq<char>) -> Option<i32> {
    match num::i32_value(s) {
        Some(v) if v > 0 => Some(v),
        _ => None,
    }
}

/// Reads an integer above 0.
pub fn parse_positive_i32(flag: &str, value: &str) -> (r: Result<i32, String>)
    ensures
        value_or(positive_i32(value@), invalid_value(flag@, value@), r),
{
    match parse_i32(chars_of(value).as_slice()) {
        Some(v) => if v > 0 {
            Ok(v)
        } else {
            Err(invalid_value_text(flag, value))
        },
        None => Err(invalid_value_text(flag, value)),
    }
}

/// The integer not below 0 that `s` writes.
pub open spec fn nonnegative_i32(s: Seq<char>) -> Option<i32> {
    match num::i32_value(s) {
        Some(v) if v >= 0 => Some(v),
        _ => None,
    }
}

/// Reads an integer not below 0.
pub fn parse_nonnegative_i32(flag: &str, value: &str) -> (r: Result<i32, String>)
    ensures
        value_or(nonnegative_i32(value@), invalid_value(flag@, value@), r),
{
    match parse_i32(chars_of(value).as_slice()) {
        Some(v) => if v >= 0 {
            Ok(v)
        } else {
            Err(invalid_value_text(flag, value))
        },
        None => Err(invalid_value_text(flag, value)),
    }
}

/// The 64-bit integer above 0 that `s` writes.
pub open spec fn positive_u64(s: Seq<char>) -> Option<u64> {
    match num::u64_value(s) {
        Some(v) if v > 0 => Some(v),
        _ => None,
    }
}

/// Reads a 64-bit integer above 0.
pub fn parse_positive_u64(flag: &str, value: &str) -> (r: Result<u64, String>)
    ensures
        value_or(positive_u64(value@), invalid_value(flag@, value@), r),
{
    match parse_u64(chars_of(value).as_slice()) {
        Some(v) => if v > 0 {
            Ok(v)
        } else {
            Err(invalid_value_text(flag, value))
        },
        None => Err(invalid_value_text(flag, value)),
    }
}

/// The float between 0 and that of bits `max` that the argument writes.
pub open spec fn float_value(bits: Option<u32>, max: u32) -> Option<u32> {
    match bits {
        Some(b) if float_within(b, max) => Some(b),
        _ => None,
    }
}

/// Reads a float between 0 and that of bits `max`.
pub fn parse_f32_range(flag: &str, value: &Arg, max: u32) -> (r: Result<u32, String>)
    ensures
        value_or(float_value(value.f32_bits, max), invalid_value(flag@, value.text@), r),
{
    match value.f32_bits {
        Some(b) => if b <= max || b == F32_NEG_ZERO {
            Ok(b)
        } else {
            Err(invalid_value_text(flag, value.text.as_str()))
        },
        None => Err(invalid_value_text(flag, value.text.as_str())),
    }
}

/// The backend that `s` names.
pub open spec fn backend_named(s: Seq<char>) -> Option<Backend> {
    if s == "cuda"@ {
        Some(Backend::Cuda)
    } else if s == "metal"@ {
        Some(Backend::Metal)
    } else if s == "cpu"@ {
        Some(Backend::Cpu)
    } else {
        None
    }
}

/// Reads a backend; `complaint` stands in front of a name that is none.
pub fn parse_backend(value: &str, complaint: &str) -> (r: Result<Backend, String>)
    ensures
        value_or(backend_named(value@), complaint@ + value@, r),
{
    if str_eq(value, "cuda") {
        Ok(Backend::Cuda)
    } else if str_eq(value, "metal") {
        Ok(Backend::Metal)
    } else if str_eq(value, "cpu") {
        Ok(Backend::Cpu)
    } else {
        let mut e = String::from_str(complaint);
        e.append(value);
        Err(e)
    }
}

/// The text of an optional string.
pub open spec fn opt_text(o: Option<String>) -> Option<Seq<char>> {
    match o {
        Some(s) => Some(s@),
        None => None,
    }
}

/// The texts of a list of strings.
pub open spec fn texts(v: Seq<String>) -> Seq<Seq<char>> {
    Seq::new(v.len(), |i: int| v[i]@)
}

} // verus!
