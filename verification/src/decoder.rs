//! Recognition of the one supported token-transfer call in raw call data.

use crate::encoding::{be_value, hex_lower};
use crate::primitives::U256;
use crate::trusted::{hex_encode, u256_from_big_endian};
use vstd::prelude::*;
use vstd::slice::slice_subrange;
use vstd::string::StringExecFns;

verus! {

/// Length of a transfer call: selector, recipient slot, amount slot.
pub const TRANSFER_CALL_LEN: usize = 68;

/// A token transfer read out of call data.
#[derive(Clone, Debug, PartialEq, Eq)]
pub struct TokenTransferInfo {
    /// `0x` and the forty lower-case hex digits of the recipient's address.
    pub recipient: String,
    /// The amount moved, in the token's smallest unit.
    pub amount: U256,
}

/// What a [`TokenTransferInfo`] holds, as mathematical values.
pub struct TokenTransferView {
    pub recipient: Seq<char>,
    pub amount: nat,
}

impl View for TokenTransferInfo {
    type V = TokenTransferView;

    open spec fn view(&self) -> TokenTransferView {
        TokenTransferView { recipient: self.recipient@, amount: self.amount@ }
    }
}

/// The four bytes that open a transfer call.
pub open spec fn transfer_selector() -> Seq<u8> {
    seq![0xa9u8, 0x05u8, 0x9cu8, 0xbbu8]
}

/// Call data is a transfer call when it is exactly 68 bytes long and opens
/// with the selector.
pub open spec fn is_transfer_call(data: Seq<u8>) -> bool {
    data.len() == 68 && data.subrange(0, 4) == transfer_selector()
}

/// The transfer that call data encodes, if any: the recipient is the last 20
/// bytes of the slot at bytes 4 to 36, the amount the big-endian integer at
/// bytes 36 to 68.
pub open spec fn decoded(data: Seq<u8>) -> Option<TokenTransferView> {
    if is_transfer_call(data) {
        Some(
            TokenTransferView {
                recipient: seq!['0', 'x'] + hex_lower(data.subrange(16, 36)),
                amount: be_value(data.subrange(36, 68)),
            },
        )
    } else {
        None
    }
}

/// Decodes call data. Any other length or selector gives `None`, which is no
/// error: the call data holds no recognised transfer.
pub fn decode(call_data: &[u8]) -> (info: Option<TokenTransferInfo>)
    ensures
        match info {
            Some(found) => decoded(call_data@) == Some(found@),
            None => decoded(call_data@) is None,
        },
{
    if call_data.len() != TRANSFER_CALL_LEN {
        return None;
    }
    if call_data[0] != 0xa9 || call_data[1] != 0x05 || call_data[2] != 0x9c || call_data[3]
        != 0xbb {
        return None;
    }
    assert(call_data@.subrange(0, 4) =~= transfer_selector());
    let digits = hex_encode(slice_subrange(call_data, 16, 36));
    let recipient = String::from_str("0x").concat(digits.as_str());
    let amount = u256_from_big_endian(slice_subrange(call_data, 36, 68));
    proof {
        reveal_strlit("0x");
        assert("0x"@ =~= seq!['0', 'x']);
    }
    Some(TokenTransferInfo { recipient, amount })
}

} // verus!
