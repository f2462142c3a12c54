//! Match records: what is written down when a derived address is found in
//! the index.

use vstd::prelude::*;
use crate::keys::{accepts_secret_key, wif_of, wif_string};
use crate::scalar::valid_scalar;

verus! {

/// The lower-case hexadecimal digit of a value below sixteen.
pub open spec fn hex_digit(nibble: u8) -> char {
    if nibble < 10 {
        ((nibble + 48) as u8) as char
    } else {
        ((nibble + 87) as u8) as char
    }
}

/// The lower-case hexadecimal text of `bytes`: two digits per byte, the high
/// half first.
pub open spec fn hex_of(bytes: Seq<u8>) -> Seq<char> {
    Seq::new(
        2 * bytes.len(),
        |i: int|
            if i % 2 == 0 {
                hex_digit((bytes[i / 2] / 16) as u8)
            } else {
                hex_digit((bytes[i / 2] % 16) as u8)
            },
    )
}

/// Calls `hex::encode`. Trusted: it prints each byte as two lower-case
/// hexadecimal digits, in order.
#[verifier::external_body]
pub(crate) fn hex_string(bytes: &[u8]) -> (text: String)
    ensures
        text@ == hex_of(bytes@),
{
    hex::encode(bytes)
}

/// A found key: its raw bytes in hexadecimal, its wallet-import-format text,
/// and the address that was found in the index.
#[derive(Clone, Debug, PartialEq, Eq)]
pub struct MatchRecord {
    pub key_hex: String,
    pub wif: String,
    pub address: String,
}

/// The text of the three fields of a match record.
pub struct MatchRecordView {
    pub key_hex: Seq<char>,
    pub wif: Seq<char>,
    pub address: Seq<char>,
}

impl View for MatchRecord {
    type V = MatchRecordView;

    open spec fn view(&self) -> MatchRecordView {
        MatchRecordView { key_hex: self.key_hex@, wif: self.wif@, address: self.address@ }
    }
}

/// The record of `address` found for the private key `key`.
pub open spec fn record_of(key: Seq<u8>, address: Seq<char>) -> MatchRecordView {
    MatchRecordView { key_hex: hex_of(key), wif: wif_of(key), address }
}

/// The first line of every block in the match log.
pub open spec fn banner() -> Seq<char> {
    "ENCONTRADA DIRECCIÓN CON BALANCE!"@
}

/// The block that a record contributes to the match log: the banner, then
/// the three fields under their labels, each line closed by a newline.
pub open spec fn block_of(record: MatchRecordView) -> Seq<char> {
    banner() + "\n"@ + "Private Key: "@ + record.key_hex + "\n"@ + "WIF: "@ + record.wif + "\n"@
        + "Address: "@ + record.address + "\n"@
}

impl MatchRecord {
    /// The record of `address` for `key`, or `None` where `key` is no
    /// private key and so has no wallet-import-format text.
    pub fn for_key(key: &[u8], address: String) -> (record: Option<MatchRecord>)
        ensures
            record.is_some() == valid_scalar(key@),
            record matches Some(r) ==> r@ == record_of(key@, address@),
    {
        if accepts_secret_key(key) {
            Some(MatchRecord { key_hex: hex_string(key), wif: wif_string(key), address })
        } else {
            None
        }
    }

    /// The text to append to the match log for this record.
    pub fn render(&self) -> (block: String)
        ensures
            block@ == block_of(self@),
    {
        let mut block = String::from_str("ENCONTRADA DIRECCIÓN CON BALANCE!");
        block.append("\n");
        block.append("Private Key: ");
        block.append(self.key_hex.as_str());
        block.append("\n");
        block.append("WIF: ");
        block.append(self.wif.as_str());
        block.append("\n");
        block.append("Address: ");
        block.append(self.address.as_str());
        block.append("\n");
        block
    }
}

} // verus!
