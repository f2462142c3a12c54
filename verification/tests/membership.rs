use keyscan::index::{place_of, MembershipIndex, Place};

fn index_of(addresses: &[&str]) -> MembershipIndex {
    MembershipIndex::from_addresses(addresses.iter().map(|s| s.to_string()).collect())
}

#[test]
fn empty_index_contains_nothing() {
    let index = index_of(&[]);
    assert!(!index.contains(""));
    assert!(!index.contains("1BoatSLRHtKNngkdXEeobR76b53LETtpyT"));
}

#[test]
fn single_entry_is_found_by_exact_equality() {
    let index = index_of(&["1BoatSLRHtKNngkdXEeobR76b53LETtpyT"]);
    assert!(index.contains("1BoatSLRHtKNngkdXEeobR76b53LETtpyT"));
    assert!(!index.contains("1BoatSLRHtKNngkdXEeobR76b53LETtpy"));
    assert!(!index.contains("1BoatSLRHtKNngkdXEeobR76b53LETtpyTT"));
    assert!(!index.contains("1boatSLRHtKNngkdXEeobR76b53LETtpyT"));
    assert!(!index.contains(" 1BoatSLRHtKNngkdXEeobR76b53LETtpyT"));
    assert!(!index.contains(""));
}

#[test]
fn contains_is_true_exactly_for_the_entries() {
    let entries = ["delta", "alpha", "charlie", "bravo", "echo", "alpha", "", "alp", "alphabet"];
    let index = index_of(&entries);
    for e in entries.iter() {
        assert!(index.contains(e), "{} is an entry", e);
    }
    for absent in ["a", "alph", "alphab", "bravoo", "foxtrot", "Alpha", "echo ", "d"].iter() {
        assert!(!index.contains(absent), "{} is no entry", absent);
    }
}

#[test]
fn order_of_the_list_does_not_matter() {
    let mut names: Vec<String> = (0..500u32).map(|i| format!("addr{}", (i * 7919) % 1000)).collect();
    let index = MembershipIndex::from_addresses(names.clone());
    names.reverse();
    let reversed = MembershipIndex::from_addresses(names.clone());
    for i in 0..1000u32 {
        let probe = format!("addr{}", i);
        let expected = names.contains(&probe);
        assert_eq!(index.contains(&probe), expected);
        assert_eq!(reversed.contains(&probe), expected);
    }
}

#[test]
fn repeated_queries_agree() {
    let index = index_of(&["x", "y", "z"]);
    for _ in 0..10 {
        assert!(index.contains("y"));
        assert!(!index.contains("w"));
    }
}

#[test]
fn strings_outside_ascii_are_matched_exactly() {
    let index = index_of(&["DIRECCIÓN", "dirección", "日本"]);
    assert!(index.contains("DIRECCIÓN"));
    assert!(index.contains("日本"));
    assert!(!index.contains("DIRECCION"));
    assert!(!index.contains("日"));
}

#[test]
fn place_of_orders_by_first_difference() {
    assert_eq!(place_of(b"abc", b"abd"), Place::Before);
    assert_eq!(place_of(b"abd", b"abc"), Place::After);
    assert_eq!(place_of(b"abc", b"abc"), Place::Same);
    assert_eq!(place_of(&[0x00, 0xff], &[0x01]), Place::Before);
    assert_eq!(place_of(&[0xff], &[0x7f, 0xff]), Place::After);
}

#[test]
fn place_of_puts_a_prefix_first() {
    assert_eq!(place_of(b"", b""), Place::Same);
    assert_eq!(place_of(b"", b"a"), Place::Before);
    assert_eq!(place_of(b"a", b""), Place::After);
    assert_eq!(place_of(b"ab", b"abc"), Place::Before);
    assert_eq!(place_of(b"abc", b"ab"), Place::After);
}
