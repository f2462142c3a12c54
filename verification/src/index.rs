//! The membership index: an immutable set of address strings, queried by
//! exact string equality.
//!
//! The strings are kept sorted by their UTF-8 bytes, so that a lookup is a
//! binary search.

use vstd::prelude::*;
use vstd::utf8::{encode_utf8, encode_utf8_decode_utf8, decode_utf8};

verus! {

/// Strict lexicographic order on byte strings: the first differing byte
/// decides, and a proper prefix comes first.
pub open spec fn lex_lt(a: Seq<u8>, b: Seq<u8>) -> bool
    decreases a.len(),
{
    if b.len() == 0 {
        false
    } else if a.len() == 0 {
        true
    } else if a[0] != b[0] {
        a[0] < b[0]
    } else {
        lex_lt(a.drop_first(), b.drop_first())
    }
}

/// Lexicographic order on byte strings.
pub open spec fn lex_le(a: Seq<u8>, b: Seq<u8>) -> bool {
    a == b || lex_lt(a, b)
}

/// The characters of each string in `list`, in order.
pub open spec fn texts(list: Seq<String>) -> Seq<Seq<char>> {
    list.map_values(|s: String| s@)
}

/// Whether the strings of `list` ascend by their UTF-8 bytes. Equal
/// neighbours are allowed.
pub open spec fn ascending(list: Seq<Seq<char>>) -> bool {
    forall|i: int, j: int|
        0 <= i < j < list.len() ==> lex_le(
            encode_utf8(#[trigger] list[i]),
            encode_utf8(#[trigger] list[j]),
        )
}

/// No byte string comes before itself.
pub proof fn lemma_lex_lt_irreflexive(a: Seq<u8>)
    ensures
        !lex_lt(a, a),
    decreases a.len(),
{
    if a.len() > 0 {
        lemma_lex_lt_irreflexive(a.drop_first());
    }
}

/// The strict order is transitive.
pub proof fn lemma_lex_lt_transitive(a: Seq<u8>, b: Seq<u8>, c: Seq<u8>)
    requires
        lex_lt(a, b),
        lex_lt(b, c),
    ensures
        lex_lt(a, c),
    decreases a.len(),
{
    if a.len() > 0 && a[0] == b[0] && b[0] == c[0] {
        lemma_lex_lt_transitive(a.drop_first(), b.drop_first(), c.drop_first());
    }
}

/// Two strings with the same UTF-8 bytes are the same string.
pub proof fn lemma_utf8_injective(s: Seq<char>, t: Seq<char>)
    requires
        encode_utf8(s) == encode_utf8(t),
    ensures
        s == t,
{
    encode_utf8_decode_utf8(s);
    encode_utf8_decode_utf8(t);
    assert(decode_utf8(encode_utf8(s)) == decode_utf8(encode_utf8(t)));
}

/// Where one byte string stands relative to another.
#[derive(Clone, Copy, Debug, PartialEq, Eq, Structural)]
pub enum Place {
    Before,
    Same,
    After,
}

/// Places `a` relative to `b` in lexicographic order.
pub fn place_of(a: &[u8], b: &[u8]) -> (place: Place)
    ensures
        place == Place::Before <==> lex_lt(a@, b@),
        place == Place::Same <==> a@ == b@,
        place == Place::After <==> lex_lt(b@, a@),
{
    let mut i: usize = 0;
    proof {
        assert(a@.skip(0) =~= a@);
        assert(b@.skip(0) =~= b@);
    }
    while i < a.len() && i < b.len()
        invariant
            i <= a@.len(),
            i <= b@.len(),
            a@.take(i as int) == b@.take(i as int),
            lex_lt(a@, b@) == lex_lt(a@.skip(i as int), b@.skip(i as int)),
            lex_lt(b@, a@) == lex_lt(b@.skip(i as int), a@.skip(i as int)),
        decreases a@.len() - i,
    {
        let x = a[i];
        let y = b[i];
        proof {
            let ar = a@.skip(i as int);
            let br = b@.skip(i as int);
            assert(ar[0] == x && br[0] == y);
            assert(ar.drop_first() =~= a@.skip(i + 1));
            assert(br.drop_first() =~= b@.skip(i + 1));
        }
        if x < y {
            proof {
                lemma_lex_lt_asymmetric_head(a@.skip(i as int), b@.skip(i as int));
                assert(a@ != b@) by {
                    if a@ == b@ {
                        assert(a@[i as int] == b@[i as int]);
                    }
                }
            }
            return Place::Before;
        }
        if y < x {
            proof {
                lemma_lex_lt_asymmetric_head(b@.skip(i as int), a@.skip(i as int));
                assert(a@ != b@) by {
                    if a@ == b@ {
                        assert(a@[i as int] == b@[i as int]);
                    }
                }
            }
            return Place::After;
        }
        proof {
            assert(a@.take(i + 1) =~= a@.take(i as int).push(x));
            assert(b@.take(i + 1) =~= b@.take(i as int).push(y));
        }
        i = i + 1;
    }
    proof {
        assert(a@.take(a@.len() as int) =~= a@);
        assert(b@.take(b@.len() as int) =~= b@);
    }
    if i < b.len() {
        proof {
            assert(a@.skip(i as int).len() == 0);
            assert(a@.len() != b@.len());
        }
        Place::Before
    } else if i < a.len() {
        proof {
            assert(b@.skip(i as int).len() == 0);
            assert(a@.len() != b@.len());
        }
        Place::After
    } else {
        proof {
            assert(a@.skip(i as int).len() == 0);
            assert(b@.skip(i as int).len() == 0);
        }
        Place::Same
    }
}

/// Where the first bytes differ, the smaller one decides, one way only.
proof fn lemma_lex_lt_asymmetric_head(a: Seq<u8>, b: Seq<u8>)
    requires
        a.len() > 0,
        b.len() > 0,
        a[0] < b[0],
    ensures
        lex_lt(a, b),
        !lex_lt(b, a),
{
}

/// Calls `sort_unstable` on the list. Trusted: the list comes back with the
/// same strings, as often as before, in ascending order of their UTF-8
/// bytes, which is the order of `String`.
#[verifier::external_body]
fn sort_strings(list: &mut Vec<String>)
    ensures
        texts(final(list)@).to_multiset() == texts(old(list)@).to_multiset(),
        ascending(texts(final(list)@)),
{
    list.sort_unstable();
}

/// An immutable set of address strings.
pub struct MembershipIndex {
    entries: Vec<String>,
}

impl View for MembershipIndex {
    type V = Set<Seq<char>>;

    /// The strings that the index holds.
    closed spec fn view(&self) -> Set<Seq<char>> {
        texts(self.entries@).to_set()
    }
}

impl MembershipIndex {
    #[verifier::type_invariant]
    spec fn ordered(&self) -> bool {
        ascending(texts(self.entries@))
    }

    /// Builds the index that holds exactly the given strings. Duplicates and
    /// the order of the list do not matter.
    pub fn from_addresses(addresses: Vec<String>) -> (index: MembershipIndex)
        ensures
            index@ == texts(addresses@).to_set(),
    {
        let mut entries = addresses;
        sort_strings(&mut entries);
        proof {
            let before = texts(addresses@);
            let after = texts(entries@);
            assert forall|s: Seq<char>| after.to_set().contains(s) == before.to_set().contains(
                s,
            ) by {
                vstd::seq_lib::to_multiset_contains(after, s);
                vstd::seq_lib::to_multiset_contains(before, s);
            }
            assert(after.to_set() =~= before.to_set());
        }
        MembershipIndex { entries }
    }

    /// Whether `address` is one of the strings of the index, by exact
    /// equality.
    pub fn contains(&self, address: &str) -> (found: bool)
        ensures
            found == self@.contains(address@),
    {
        proof {
            use_type_invariant(self);
        }
        let probe = address.as_bytes();
        let mut lo: usize = 0;
        let mut hi: usize = self.entries.len();
        while lo < hi
            invariant
                lo <= hi <= self.entries@.len(),
                probe@ == encode_utf8(address@),
                ascending(texts(self.entries@)),
                forall|i: int|
                    0 <= i < lo ==> lex_lt(encode_utf8(#[trigger] texts(self.entries@)[i]), probe@),
                forall|i: int|
                    hi <= i < self.entries@.len() ==> lex_lt(
                        probe@,
                        encode_utf8(#[trigger] texts(self.entries@)[i]),
                    ),
            decreases hi - lo,
        {
            let mid = lo + (hi - lo) / 2;
            let entry = self.entries[mid].as_str().as_bytes();
            let ghost list = texts(self.entries@);
            assert(entry@ == encode_utf8(list[mid as int]));
            match place_of(entry, probe) {
                Place::Same => {
                    proof {
                        lemma_utf8_injective(list[mid as int], address@);
                        assert(list.contains(address@));
                    }
                    return true;
                },
                Place::Before => {
                    proof {
                        assert forall|i: int| 0 <= i < mid + 1 implies lex_lt(
                            encode_utf8(#[trigger] list[i]),
                            probe@,
                        ) by {
                            if i < mid && encode_utf8(list[i]) != entry@ {
                                lemma_lex_lt_transitive(encode_utf8(list[i]), entry@, probe@);
                            }
                        }
                    }
                    lo = mid + 1;
                },
                Place::After => {
                    proof {
                        assert forall|i: int| mid <= i < list.len() implies lex_lt(
                            probe@,
                            encode_utf8(#[trigger] list[i]),
                        ) by {
                            if mid < i && encode_utf8(list[i]) != entry@ {
                                lemma_lex_lt_transitive(probe@, entry@, encode_utf8(list[i]));
                            }
                        }
                    }
                    hi = mid;
                },
            }
        }
        proof {
            let list = texts(self.entries@);
            assert forall|i: int| 0 <= i < list.len() implies list[i] != address@ by {
                lemma_lex_lt_irreflexive(probe@);
            }
            assert(!list.contains(address@));
        }
        false
    }
}

} // verus!
