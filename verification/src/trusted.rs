//! The calls into the `ethers` crate. Each function here is believed, not
//! proved: its body is the outside call and its contract restates what that
//! call is documented to return.

use crate::encoding::{address_of_text, be_value, fixed_point, hex_lower};
use crate::primitives::{Address, U256};
use vstd::prelude::*;

verus! {

/// `ethers::utils::hex::encode`, on a byte slice. Claimed of it: the text is
/// the lower-case hex of `bytes`, two digits for each byte in order, the high
/// half of the byte first, and nothing else.
#[verifier::external_body]
pub(crate) fn hex_encode(bytes: &[u8]) -> (text: String)
    ensures
        text@ == hex_lower(bytes@),
{
    ethers::utils::hex::encode(bytes)
}

/// `ethers::types::U256::from_big_endian`. Claimed of it: the result is the
/// integer that `bytes` spell with the most significant byte first, a slice
/// shorter than 32 bytes counting as padded with zeros in front. The outside
/// function panics on a longer slice, which `requires` leaves out. The four
/// words of the outside value are carried over as they are.
#[verifier::external_body]
pub(crate) fn u256_from_big_endian(bytes: &[u8]) -> (value: U256)
    requires
        bytes@.len() <= 32,
    ensures
        value@ == be_value(bytes@),
{
    let v = ethers::types::U256::from_big_endian(bytes);
    U256 { w0: v.0[0], w1: v.0[1], w2: v.0[2], w3: v.0[3] }
}

/// `str::parse` to `ethers::types::Address`, that is the type's `FromStr`.
/// Claimed of it: it drops one leading `0x`, skips spaces, tabs, carriage
/// returns and line feeds, and succeeds exactly when what is left is forty hex
/// digits of either case, which it reads as twenty bytes in order. Any error of
/// the outside parser becomes `None`.
#[verifier::external_body]
pub(crate) fn parse_address(text: &str) -> (parsed: Option<Address>)
    ensures
        match parsed {
            Some(address) => address_of_text(text@) == Some(address@),
            None => address_of_text(text@) is None,
        },
{
    match text.parse::<ethers::types::Address>() {
        Ok(address) => Some(Address { bytes: address.0 }),
        Err(_) => None,
    }
}

/// `ethers::utils::format_units`, on an unsigned 256-bit amount and a number
/// of decimal places. Claimed of it: below 78 places it succeeds with the
/// amount divided by ten to the `places` in decimal, a point, and the remainder
/// padded with zeros to `places` digits; from 78 places on it reports an
/// overflow, which becomes `None`. The amount's four words are handed over as
/// they are.
#[verifier::external_body]
pub(crate) fn format_units(amount: &U256, places: u32) -> (text: Option<String>)
    ensures
        match text {
            Some(t) => places < 78 && t@ == fixed_point(amount@, places as nat),
            None => places >= 78,
        },
{
    let value = ethers::types::U256([amount.w0, amount.w1, amount.w2, amount.w3]);
    ethers::utils::format_units(value, places).ok()
}

} // verus!
