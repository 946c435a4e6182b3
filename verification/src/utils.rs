//! Conversions between the text and the bytes of an address.

use crate::address::{canonical_bytes, Address};
use crate::base16::{decode_hex, hex_value, is_hex};
use vstd::prelude::*;

verus! {

/// The bytes of the address that hexadecimal digits spell: the digits must
/// stand for at least one byte, which [`canonical_bytes`] brings to twenty.
/// Text that is not hexadecimal, the empty text too, spells no address.
pub open spec fn address_of_digits(text: Seq<char>) -> Option<Seq<u8>> {
    if is_hex(text) && text.len() > 0 {
        Some(canonical_bytes(hex_value(text)))
    } else {
        None
    }
}

/// Reads the address that hexadecimal digits spell, if they spell one.
pub fn address_from_digits(digits: &str) -> (r: Option<Address>)
    ensures
        r matches Some(a) ==> address_of_digits(digits@) == Some(a@),
        r is None ==> address_of_digits(digits@) is None,
{
    match decode_hex(digits) {
        None => None,
        Some(bytes) => {
            if bytes.len() == 0 {
                None
            } else {
                Some(Address::from_slice(bytes.as_slice()))
            }
        },
    }
}

/// Turns the digits of a recipient into its address. There is none where
/// there are no digits, and none where the digits spell no address.
pub fn option_string_to_h160(opt_string: Option<String>) -> (r: Option<Address>)
    ensures
        opt_string is None ==> r is None,
        opt_string matches Some(s) ==> (r matches Some(a) ==> address_of_digits(s@) == Some(a@)),
        opt_string matches Some(s) ==> (r is None ==> address_of_digits(s@) is None),
{
    match opt_string {
        None => None,
        Some(s) => address_from_digits(s.as_str()),
    }
}

} // verus!
