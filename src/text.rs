//! Identifier hashing and the text conversions of the value model.
use vstd::prelude::*;
use std::hash::Hasher;

verus! {

/// What `str::to_lowercase` makes of a string.
pub uninterp spec fn lowercase_of(s: Seq<char>) -> Seq<char>;

/// The zero-keyed SipHash digest of the UTF-8 encoding of a string.
pub uninterp spec fn sip_digest_of(s: Seq<char>) -> u64;

/// Relies on `str::to_lowercase`: the lowercase mapping depends on the
/// characters alone.
#[verifier::external_body]
pub(crate) fn lowercase(s: &str) -> (r: String)
    ensures
        r@ == lowercase_of(s@),
{
    s.to_lowercase()
}

/// Relies on std's `SipHasher` (SipHash with both keys zero): the digest of
/// the bytes written is fixed by those bytes, in every process.
#[verifier::external_body]
#[allow(deprecated)]
pub(crate) fn sip_digest(s: &str) -> (r: u64)
    ensures
        r == sip_digest_of(s@),
{
    let mut hasher = std::hash::SipHasher::new();
    hasher.write(s.as_bytes());
    hasher.finish()
}

/// The identifier of a variable name: the digest of its lowercase form.
pub open spec fn identifier_of(name: Seq<char>) -> u64 {
    sip_digest_of(lowercase_of(name))
}

/// Turns a source-level variable name into the identifier that compiled
/// code uses to refer to it. Names that differ only in case share it.
pub fn variable_name_to_identifier(name: String) -> (r: u64)
    ensures
        r == identifier_of(name@),
{
    let lowered = lowercase(name.as_str());
    sip_digest(lowered.as_str())
}

pub open spec fn is_digit(c: char) -> bool {
    '0' <= c && c <= '9'
}

/// The value of a string of decimal digits, most significant first.
pub open spec fn digits_value(s: Seq<char>) -> int
    decreases s.len(),
{
    if s.len() == 0 {
        0
    } else {
        digits_value(s.drop_last()) * 10 + (s.last() as u32 - '0' as u32)
    }
}

/// The integer written by an optional sign followed by one or more decimal
/// digits, or `None` when the text has another shape.
pub open spec fn signed_decimal_value(s: Seq<char>) -> Option<int> {
    let negative = s.len() > 0 && s[0] == '-';
    let signed = s.len() > 0 && (s[0] == '-' || s[0] == '+');
    let digits = if signed { s.drop_first() } else { s };
    if digits.len() > 0 && (forall|i: int| 0 <= i < digits.len() ==> is_digit(#[trigger] digits[i])) {
        Some(if negative { -digits_value(digits) } else { digits_value(digits) })
    } else {
        None
    }
}

/// What `str::parse::<i32>` accepts: a signed decimal that fits in 32 bits.
pub open spec fn parsed_integer(s: Seq<char>) -> Option<i32> {
    match signed_decimal_value(s) {
        Some(v) => if i32::MIN <= v <= i32::MAX { Some(v as i32) } else { None },
        None => None,
    }
}

/// Relies on `str::parse::<i32>`: an optional `+` or `-` followed by decimal
/// digits is accepted when the value fits; anything else is an error.
#[verifier::external_body]
pub(crate) fn parse_integer(s: &str) -> (r: Option<i32>)
    ensures
        r == parsed_integer(s@),
{
    s.parse::<i32>().ok()
}

pub open spec fn digit_char(d: int) -> char {
    seq!['0', '1', '2', '3', '4', '5', '6', '7', '8', '9'][d]
}

/// The decimal digits of a natural number, without leading zeros.
pub open spec fn natural_text(n: nat) -> Seq<char>
    decreases n,
{
    if n < 10 {
        seq![digit_char(n as int)]
    } else {
        natural_text(n / 10).push(digit_char((n % 10) as int))
    }
}

/// The decimal text of an integer, with a leading `-` when it is negative.
pub open spec fn decimal_text(v: int) -> Seq<char> {
    if v < 0 {
        seq!['-'] + natural_text((-v) as nat)
    } else {
        natural_text(v as nat)
    }
}

/// Relies on `i32`'s `Display`, through `to_string`: a minus sign for
/// negative values, then the decimal digits without leading zeros.
#[verifier::external_body]
pub(crate) fn integer_text(v: i32) -> (r: String)
    ensures
        r@ == decimal_text(v as int),
{
    v.to_string()
}

/// Relies on `String::push_str`: appends the slice to the end of the string.
#[verifier::external_body]
pub(crate) fn append_text(s: &mut String, t: &str)
    ensures
        final(s)@ == old(s)@ + t@,
{
    s.push_str(t)
}

} // verus!
