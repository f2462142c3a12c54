//! Address derivation: from key material to the addresses it controls.

use vstd::prelude::*;
use crate::keys::{
    accepts_secret_key, p2pkh_of, p2pkh_string, p2shwpkh_of, p2shwpkh_string, p2wpkh_of,
    p2wpkh_string, public_key_bytes, public_key_of, text_of,
};
use crate::scalar::valid_scalar;

verus! {

/// The address encodings that the scanner derives, in the order in which
/// they are derived.
#[derive(Clone, Copy, Debug, PartialEq, Eq, Structural)]
pub enum Scheme {
    /// Pay to public key hash.
    Legacy,
    /// Pay to witness public key hash, wrapped in a script hash.
    ScriptWrappedSegwit,
    /// Pay to witness public key hash.
    NativeSegwit,
}

/// One address reachable from a key, with the scheme that produced it.
#[derive(Clone, Debug, PartialEq, Eq)]
pub struct DerivedAddress {
    pub scheme: Scheme,
    pub address: String,
}

impl View for DerivedAddress {
    type V = (Scheme, Seq<char>);

    open spec fn view(&self) -> (Scheme, Seq<char>) {
        (self.scheme, self.address@)
    }
}

/// The scheme and text of each address in `list`, in order.
pub open spec fn views(list: Seq<DerivedAddress>) -> Seq<(Scheme, Seq<char>)> {
    list.map_values(|d: DerivedAddress| d@)
}

/// The address of a serialized public key under `scheme`, where it has one.
pub open spec fn address_of(scheme: Scheme, public_key: Seq<u8>) -> Option<Seq<char>> {
    match scheme {
        Scheme::Legacy => p2pkh_of(public_key),
        Scheme::ScriptWrappedSegwit => p2shwpkh_of(public_key),
        Scheme::NativeSegwit => p2wpkh_of(public_key),
    }
}

/// The single entry that one encoding contributes, or nothing where the
/// encoding failed.
pub open spec fn entry(scheme: Scheme, address: Option<Seq<char>>) -> Seq<(Scheme, Seq<char>)> {
    match address {
        Some(a) => seq![(scheme, a)],
        None => Seq::empty(),
    }
}

/// The entries of the three encodings, in scheme order. An encoding that
/// failed leaves the others in place.
pub open spec fn collected(
    legacy: Option<Seq<char>>,
    wrapped: Option<Seq<char>>,
    native: Option<Seq<char>>,
) -> Seq<(Scheme, Seq<char>)> {
    entry(Scheme::Legacy, legacy) + entry(Scheme::ScriptWrappedSegwit, wrapped) + entry(
        Scheme::NativeSegwit,
        native,
    )
}

/// What `derive` returns for `key`: nothing for bytes that are no private
/// key, else the addresses of the key's public key under each scheme.
pub open spec fn derive_spec(key: Seq<u8>) -> Seq<(Scheme, Seq<char>)> {
    if valid_scalar(key) {
        let public_key = public_key_of(key);
        collected(
            address_of(Scheme::Legacy, public_key),
            address_of(Scheme::ScriptWrappedSegwit, public_key),
            address_of(Scheme::NativeSegwit, public_key),
        )
    } else {
        Seq::empty()
    }
}

impl Scheme {
    /// Encodes a serialized public key under this scheme.
    pub fn encode(self, public_key: &[u8]) -> (address: Option<String>)
        ensures
            text_of(address) == address_of(self, public_key@),
    {
        match self {
            Scheme::Legacy => p2pkh_string(public_key),
            Scheme::ScriptWrappedSegwit => p2shwpkh_string(public_key),
            Scheme::NativeSegwit => p2wpkh_string(public_key),
        }
    }
}

fn push_entry(list: &mut Vec<DerivedAddress>, scheme: Scheme, address: Option<String>)
    ensures
        views(final(list)@) == views(old(list)@) + entry(scheme, text_of(address)),
{
    match address {
        Some(address) => {
            list.push(DerivedAddress { scheme, address });
            assert(views(list@) =~= views(old(list)@) + entry(scheme, Some(address@)));
        },
        None => {
            assert(views(list@) =~= views(old(list)@) + entry(scheme, None));
        },
    }
}

/// Gathers the outcomes of the three encodings into the list of derived
/// addresses: one entry per encoding that succeeded, in scheme order.
pub fn collect(legacy: Option<String>, wrapped: Option<String>, native: Option<String>) -> (list:
    Vec<DerivedAddress>)
    ensures
        views(list@) == collected(text_of(legacy), text_of(wrapped), text_of(native)),
{
    let mut list: Vec<DerivedAddress> = Vec::new();
    assert(views(list@) =~= Seq::empty());
    push_entry(&mut list, Scheme::Legacy, legacy);
    push_entry(&mut list, Scheme::ScriptWrappedSegwit, wrapped);
    push_entry(&mut list, Scheme::NativeSegwit, native);
    list
}

/// Derives the addresses reachable from `key`.
///
/// Bytes that are no private key (wrong length, zero, or not below the group
/// order) give an empty list. For a private key the public key is computed
/// once and encoded under each scheme in turn. The result is a function of
/// `key` alone: equal keys give equal lists.
pub fn derive(key: &[u8]) -> (list: Vec<DerivedAddress>)
    ensures
        views(list@) == derive_spec(key@),
        !valid_scalar(key@) ==> list@.len() == 0,
        list@.len() <= 3,
{
    if !accepts_secret_key(key) {
        let list: Vec<DerivedAddress> = Vec::new();
        assert(views(list@) =~= Seq::empty());
        return list;
    }
    let public_key = public_key_bytes(key);
    let legacy = Scheme::Legacy.encode(public_key.as_slice());
    let wrapped = Scheme::ScriptWrappedSegwit.encode(public_key.as_slice());
    let native = Scheme::NativeSegwit.encode(public_key.as_slice());
    let list = collect(legacy, wrapped, native);
    assert(views(list@).len() == list@.len());
    list
}

} // verus!
