//! The trusted boundary to the `bitcoin` crate.
//!
//! Every function here is a thin call into `bitcoin`, from bytes to bytes or
//! text. Their contracts are believed, not proved. What an encoding returns
//! is given a name, so that the verified code can say which encoding of which
//! value it holds without restating the hash functions and alphabets.

use vstd::prelude::*;
use crate::scalar::valid_scalar;

verus! {

/// The serialized public key (compressed form) of the private key `key`.
pub uninterp spec fn public_key_of(key: Seq<u8>) -> Seq<u8>;

/// The wallet-import-format text of the private key `key` on the main
/// network, marked as belonging to a compressed public key.
pub uninterp spec fn wif_of(key: Seq<u8>) -> Seq<char>;

/// The pay-to-public-key-hash address of a serialized public key, or `None`
/// where the bytes are no public key.
pub uninterp spec fn p2pkh_of(public_key: Seq<u8>) -> Option<Seq<char>>;

/// The script-wrapped pay-to-witness-public-key-hash address of a serialized
/// public key, or `None` where the bytes are no public key.
pub uninterp spec fn p2shwpkh_of(public_key: Seq<u8>) -> Option<Seq<char>>;

/// The native pay-to-witness-public-key-hash address of a serialized public
/// key, or `None` where the bytes are no public key.
pub uninterp spec fn p2wpkh_of(public_key: Seq<u8>) -> Option<Seq<char>>;

/// The characters of an optional string.
pub open spec fn text_of(s: Option<String>) -> Option<Seq<char>> {
    match s {
        Some(s) => Some(s@),
        None => None,
    }
}

/// Calls `bitcoin::PrivateKey::from_slice` and reports whether it accepted
/// the bytes. Trusted: the parser accepts exactly the 32-byte strings that
/// spell a nonzero integer below the group order.
#[verifier::external_body]
pub(crate) fn accepts_secret_key(key: &[u8]) -> (ok: bool)
    ensures
        ok == valid_scalar(key@),
{
    bitcoin::PrivateKey::from_slice(key, bitcoin::Network::Bitcoin).is_ok()
}

/// Calls `bitcoin::PublicKey::from_private_key` and serializes the result.
/// Trusted: the bytes returned depend on `key` alone.
#[verifier::external_body]
pub(crate) fn public_key_bytes(key: &[u8]) -> (encoded: Vec<u8>)
    requires
        valid_scalar(key@),
    ensures
        encoded@ == public_key_of(key@),
{
    let secp = bitcoin::secp256k1::Secp256k1::new();
    let secret = bitcoin::PrivateKey::from_slice(key, bitcoin::Network::Bitcoin).unwrap();
    bitcoin::PublicKey::from_private_key(&secp, &secret).to_bytes()
}

/// Calls `bitcoin::PrivateKey::to_wif`. Trusted: the text returned depends on
/// `key` alone.
#[verifier::external_body]
pub(crate) fn wif_string(key: &[u8]) -> (wif: String)
    requires
        valid_scalar(key@),
    ensures
        wif@ == wif_of(key@),
{
    bitcoin::PrivateKey::from_slice(key, bitcoin::Network::Bitcoin).unwrap().to_wif()
}

/// Calls `bitcoin::Address::p2pkh` for the main network and prints the
/// address. Trusted: the outcome depends on `public_key` alone.
#[verifier::external_body]
pub(crate) fn p2pkh_string(public_key: &[u8]) -> (address: Option<String>)
    ensures
        text_of(address) == p2pkh_of(public_key@),
{
    match bitcoin::PublicKey::from_slice(public_key) {
        Ok(pk) => Some(bitcoin::Address::p2pkh(&pk, bitcoin::Network::Bitcoin).to_string()),
        Err(_) => None,
    }
}

/// Calls `bitcoin::Address::p2shwpkh` for the main network and prints the
/// address. Trusted: the outcome depends on `public_key` alone.
#[verifier::external_body]
pub(crate) fn p2shwpkh_string(public_key: &[u8]) -> (address: Option<String>)
    ensures
        text_of(address) == p2shwpkh_of(public_key@),
{
    match bitcoin::CompressedPublicKey::from_slice(public_key) {
        Ok(pk) => Some(bitcoin::Address::p2shwpkh(&pk, bitcoin::Network::Bitcoin).to_string()),
        Err(_) => None,
    }
}

/// Calls `bitcoin::Address::p2wpkh` for the main network and prints the
/// address. Trusted: the outcome depends on `public_key` alone.
#[verifier::external_body]
pub(crate) fn p2wpkh_string(public_key: &[u8]) -> (address: Option<String>)
    ensures
        text_of(address) == p2wpkh_of(public_key@),
{
    match bitcoin::CompressedPublicKey::from_slice(public_key) {
        Ok(pk) => Some(bitcoin::Address::p2wpkh(&pk, bitcoin::Network::Bitcoin).to_string()),
        Err(_) => None,
    }
}

} // verus!
