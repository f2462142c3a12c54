//! The scan pipeline: draw keys, derive their addresses, look each address
//! up in the index, and keep a record of every hit.

use vstd::prelude::*;
use crate::address::{derive_spec, views, DerivedAddress, Scheme};
use crate::index::MembershipIndex;
use crate::record::{record_of, MatchRecord, MatchRecordView};
use crate::scalar::{valid_scalar, KEY_LEN};

verus! {

/// The fields of each record in `list`, in order.
pub open spec fn records(list: Seq<MatchRecord>) -> Seq<MatchRecordView> {
    list.map_values(|r: MatchRecord| r@)
}

/// The bytes of each key in `keys`, in order.
pub open spec fn key_bytes(keys: Seq<Vec<u8>>) -> Seq<Seq<u8>> {
    keys.map_values(|k: Vec<u8>| k@)
}

/// The test that an address is one of `known`.
pub open spec fn known_in(known: Set<Seq<char>>) -> spec_fn((Scheme, Seq<char>)) -> bool {
    |d: (Scheme, Seq<char>)| known.contains(d.1)
}

/// The record that an address of `key` gives when it is found.
pub open spec fn recorder(key: Seq<u8>) -> spec_fn((Scheme, Seq<char>)) -> MatchRecordView {
    |d: (Scheme, Seq<char>)| record_of(key, d.1)
}

/// The records for the addresses among `derived` that are in `known`, in the
/// order of `derived`. Bytes that are no private key have no record.
pub open spec fn matches_of(
    key: Seq<u8>,
    derived: Seq<(Scheme, Seq<char>)>,
    known: Set<Seq<char>>,
) -> Seq<MatchRecordView> {
    if valid_scalar(key) {
        derived.filter(known_in(known)).map_values(recorder(key))
    } else {
        Seq::empty()
    }
}

/// The records that scanning one key gives.
pub open spec fn scan_spec(key: Seq<u8>, known: Set<Seq<char>>) -> Seq<MatchRecordView> {
    matches_of(key, derive_spec(key), known)
}

/// The records that scanning `keys` one after the other gives.
pub open spec fn batch_spec(keys: Seq<Seq<u8>>, known: Set<Seq<char>>) -> Seq<MatchRecordView> {
    keys.flat_map(|k: Seq<u8>| scan_spec(k, known))
}

/// What one batch did: how many keys it went through and what it found.
#[derive(Debug)]
pub struct BatchOutcome {
    pub processed: usize,
    pub matches: Vec<MatchRecord>,
}

/// Calls `rand::thread_rng` and fills 32 bytes from it with
/// `RngCore::fill_bytes`. Trusted: the result has 32 bytes; nothing else is
/// known of them. The generator panics where the system gives no entropy.
#[verifier::external_body]
fn random_key() -> (key: Vec<u8>)
    ensures
        key@.len() == KEY_LEN,
{
    let mut key: [u8; 32] = [0u8; 32];
    rand::RngCore::fill_bytes(&mut rand::thread_rng(), &mut key);
    key.to_vec()
}

proof fn lemma_matches_step(
    key: Seq<u8>,
    derived: Seq<(Scheme, Seq<char>)>,
    known: Set<Seq<char>>,
    i: int,
)
    requires
        0 <= i < derived.len(),
    ensures
        matches_of(key, derived.take(i + 1), known) == if valid_scalar(key) && known.contains(
            derived[i].1,
        ) {
            matches_of(key, derived.take(i), known).push(record_of(key, derived[i].1))
        } else {
            matches_of(key, derived.take(i), known)
        },
{
    let before = derived.take(i);
    assert(derived.take(i + 1) =~= before.push(derived[i]));
    before.lemma_filter_push(derived[i], known_in(known));
    before.filter(known_in(known)).lemma_push_map_commute(recorder(key), derived[i]);
}

/// Keeps a record for each address of `derived` that the index holds.
///
/// `derived` is what `derive` gave for `key`. The records come in the order
/// of `derived`, one per address found.
pub fn match_addresses(key: &[u8], derived: &Vec<DerivedAddress>, index: &MembershipIndex) -> (found:
    Vec<MatchRecord>)
    ensures
        records(found@) == matches_of(key@, views(derived@), index@),
{
    let mut found: Vec<MatchRecord> = Vec::new();
    let mut i: usize = 0;
    proof {
        assert(views(derived@).take(0).filter(known_in(index@)) =~= Seq::empty()) by {
            reveal(Seq::filter);
        }
        assert(records(found@) =~= matches_of(key@, views(derived@).take(0), index@));
    }
    while i < derived.len()
        invariant
            i <= derived@.len(),
            records(found@) == matches_of(key@, views(derived@).take(i as int), index@),
        decreases derived@.len() - i,
    {
        let ghost before = records(found@);
        proof {
            lemma_matches_step(key@, views(derived@), index@, i as int);
        }
        if index.contains(derived[i].address.as_str()) {
            match MatchRecord::for_key(key, derived[i].address.clone()) {
                Some(record) => {
                    found.push(record);
                    assert(records(found@) =~= before.push(record@));
                },
                None => {},
            }
        }
        i = i + 1;
    }
    proof {
        assert(views(derived@).take(derived@.len() as int) =~= views(derived@));
    }
    found
}

/// Scans one key: derives its addresses and keeps a record for each one
/// that the index holds. Bytes that are no private key give no record.
pub fn scan_key(key: &[u8], index: &MembershipIndex) -> (found: Vec<MatchRecord>)
    ensures
        records(found@) == scan_spec(key@, index@),
{
    let derived = crate::address::derive(key);
    match_addresses(key, &derived, index)
}

/// Scans the given keys in order. Every key counts as processed, whether it
/// was a private key or not and whatever was found for it.
pub fn scan_batch(keys: &Vec<Vec<u8>>, index: &MembershipIndex) -> (outcome: BatchOutcome)
    ensures
        outcome.processed == keys@.len(),
        records(outcome.matches@) == batch_spec(key_bytes(keys@), index@),
{
    let mut matches: Vec<MatchRecord> = Vec::new();
    let mut i: usize = 0;
    let ghost scan = |k: Seq<u8>| scan_spec(k, index@);
    proof {
        assert(key_bytes(keys@).take(0).flat_map(scan) =~= Seq::empty());
        assert(records(matches@) =~= Seq::empty());
    }
    while i < keys.len()
        invariant
            i <= keys@.len(),
            scan == |k: Seq<u8>| scan_spec(k, index@),
            records(matches@) == key_bytes(keys@).take(i as int).flat_map(scan),
        decreases keys@.len() - i,
    {
        let ghost before = matches@;
        let mut found = scan_key(keys[i].as_slice(), index);
        let ghost added = found@;
        matches.append(&mut found);
        proof {
            assert(records(matches@) =~= records(before) + records(added));
            key_bytes(keys@).lemma_flat_map_take_append(scan, i as int);
        }
        i = i + 1;
    }
    proof {
        assert(key_bytes(keys@).take(keys@.len() as int) =~= key_bytes(keys@));
    }
    BatchOutcome { processed: keys.len(), matches }
}

/// Draws `count` fresh keys of 32 random bytes each.
pub fn generate_keys(count: usize) -> (keys: Vec<Vec<u8>>)
    ensures
        keys@.len() == count,
        forall|i: int| 0 <= i < count ==> (#[trigger] keys@[i])@.len() == KEY_LEN,
{
    let mut keys: Vec<Vec<u8>> = Vec::new();
    let mut i: usize = 0;
    while i < count
        invariant
            i <= count,
            keys@.len() == i,
            forall|j: int| 0 <= j < i ==> (#[trigger] keys@[j])@.len() == KEY_LEN,
        decreases count - i,
    {
        keys.push(random_key());
        i = i + 1;
    }
    keys
}

/// Runs one batch: draws `batch_size` fresh keys and scans them in order.
///
/// The keys are random, so the contract speaks of some list of `batch_size`
/// keys of 32 bytes: the batch counts all of them as processed, and its
/// records are exactly those that scanning that list gives.
pub fn run_batch(batch_size: usize, index: &MembershipIndex) -> (outcome: BatchOutcome)
    ensures
        outcome.processed == batch_size,
        exists|keys: Seq<Seq<u8>>|
            {
                &&& keys.len() == batch_size
                &&& forall|i: int| 0 <= i < keys.len() ==> (#[trigger] keys[i]).len() == KEY_LEN
                &&& records(outcome.matches@) == #[trigger] batch_spec(keys, index@)
            },
{
    let keys = generate_keys(batch_size);
    let outcome = scan_batch(&keys, index);
    proof {
        let drawn = key_bytes(keys@);
        assert(forall|i: int| 0 <= i < drawn.len() ==> (#[trigger] drawn[i]) == keys@[i]@);
        assert(records(outcome.matches@) == batch_spec(drawn, index@));
    }
    outcome
}

} // verus!
