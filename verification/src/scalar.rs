//! The range of byte strings that name a private key on secp256k1.

use vstd::prelude::*;

verus! {

/// Number of bytes in a private key.
pub const KEY_LEN: usize = 32;

/// The integer that `bytes` spells, most significant byte first.
pub open spec fn be_value(bytes: Seq<u8>) -> nat
    decreases bytes.len(),
{
    if bytes.len() == 0 {
        0
    } else {
        be_value(bytes.drop_last()) * 256 + bytes.last() as nat
    }
}

/// The order of the secp256k1 group.
pub open spec fn curve_order() -> nat {
    0xFFFFFFFF_FFFFFFFF_FFFFFFFF_FFFFFFFE_BAAEDCE6_AF48A03B_BFD25E8C_D0364141nat
}

/// A private key is 32 bytes that spell a nonzero integer below the group
/// order.
pub open spec fn valid_scalar(key: Seq<u8>) -> bool {
    &&& key.len() == KEY_LEN
    &&& 0 < be_value(key) < curve_order()
}

} // verus!
