use keyscan::address::{collect, DerivedAddress, Scheme};

const ORDER: [u8; 32] = [
    0xff, 0xff, 0xff, 0xff, 0xff, 0xff, 0xff, 0xff, 0xff, 0xff, 0xff, 0xff, 0xff, 0xff, 0xff, 0xfe,
    0xba, 0xae, 0xdc, 0xe6, 0xaf, 0x48, 0xa0, 0x3b, 0xbf, 0xd2, 0x5e, 0x8c, 0xd0, 0x36, 0x41, 0x41,
];

fn key_one() -> Vec<u8> {
    let mut key = vec![0u8; 32];
    key[31] = 1;
    key
}

fn entry(scheme: Scheme, address: &str) -> DerivedAddress {
    DerivedAddress { scheme, address: address.to_string() }
}

#[test]
fn key_one_derives_its_published_addresses() {
    let derived = keyscan::address::derive(&key_one());
    assert_eq!(
        derived,
        vec![
            entry(Scheme::Legacy, "1BgGZ9tcN4rm9KBzDn7KprQz87SZ26SAMH"),
            entry(Scheme::ScriptWrappedSegwit, "3JvL6Ymt8MVWiCNHC7oWU6nLeHNJKLZGLN"),
            entry(Scheme::NativeSegwit, "bc1qw508d6qejxtdg4y5r3zarvary0c5xw7kv8f3t4"),
        ]
    );
}

#[test]
fn derive_is_deterministic() {
    let mut key = vec![0x5au8; 32];
    key[0] = 0x11;
    let first = keyscan::address::derive(&key);
    let second = keyscan::address::derive(&key);
    assert_eq!(first.len(), 3);
    assert_eq!(first, second);
}

#[test]
fn different_keys_derive_different_addresses() {
    let mut other = vec![0u8; 32];
    other[31] = 2;
    let one = keyscan::address::derive(&key_one());
    let two = keyscan::address::derive(&other);
    assert_eq!(two.len(), 3);
    for i in 0..3 {
        assert_eq!(one[i].scheme, two[i].scheme);
        assert_ne!(one[i].address, two[i].address);
    }
}

#[test]
fn schemes_come_in_fixed_order() {
    let derived = keyscan::address::derive(&[0x42u8; 32]);
    let schemes: Vec<Scheme> = derived.iter().map(|d| d.scheme).collect();
    assert_eq!(schemes, vec![Scheme::Legacy, Scheme::ScriptWrappedSegwit, Scheme::NativeSegwit]);
    assert!(derived[0].address.starts_with('1'));
    assert!(derived[1].address.starts_with('3'));
    assert!(derived[2].address.starts_with("bc1q"));
}

#[test]
fn zero_key_derives_nothing() {
    assert!(keyscan::address::derive(&[0u8; 32]).is_empty());
}

#[test]
fn group_order_derives_nothing() {
    assert!(keyscan::address::derive(&ORDER).is_empty());
}

#[test]
fn key_above_group_order_derives_nothing() {
    assert!(keyscan::address::derive(&[0xffu8; 32]).is_empty());
    let mut above = ORDER;
    above[31] = 0x42;
    assert!(keyscan::address::derive(&above).is_empty());
}

#[test]
fn largest_key_below_group_order_derives_three() {
    let mut largest = ORDER;
    largest[31] = 0x40;
    assert_eq!(keyscan::address::derive(&largest).len(), 3);
}

#[test]
fn wrong_length_derives_nothing() {
    assert!(keyscan::address::derive(&[]).is_empty());
    assert!(keyscan::address::derive(&[1u8; 31]).is_empty());
    assert!(keyscan::address::derive(&[1u8; 33]).is_empty());
}

#[test]
fn encode_rejects_bytes_that_are_no_public_key() {
    assert_eq!(Scheme::Legacy.encode(&[0u8; 33]), None);
    assert_eq!(Scheme::ScriptWrappedSegwit.encode(&[0u8; 33]), None);
    assert_eq!(Scheme::NativeSegwit.encode(&[]), None);
}

#[test]
fn encode_of_generator_point() {
    let generator: [u8; 33] = [
        0x02, 0x79, 0xbe, 0x66, 0x7e, 0xf9, 0xdc, 0xbb, 0xac, 0x55, 0xa0, 0x62, 0x95, 0xce, 0x87,
        0x0b, 0x07, 0x02, 0x9b, 0xfc, 0xdb, 0x2d, 0xce, 0x28, 0xd9, 0x59, 0xf2, 0x81, 0x5b, 0x16,
        0xf8, 0x17, 0x98,
    ];
    assert_eq!(
        Scheme::Legacy.encode(&generator),
        Some("1BgGZ9tcN4rm9KBzDn7KprQz87SZ26SAMH".to_string())
    );
    assert_eq!(
        Scheme::NativeSegwit.encode(&generator),
        Some("bc1qw508d6qejxtdg4y5r3zarvary0c5xw7kv8f3t4".to_string())
    );
    assert_eq!(
        Scheme::ScriptWrappedSegwit.encode(&generator),
        Some("3JvL6Ymt8MVWiCNHC7oWU6nLeHNJKLZGLN".to_string())
    );
}

#[test]
fn collect_keeps_successes_in_scheme_order() {
    let all = collect(Some("a".to_string()), Some("b".to_string()), Some("c".to_string()));
    assert_eq!(
        all,
        vec![
            entry(Scheme::Legacy, "a"),
            entry(Scheme::ScriptWrappedSegwit, "b"),
            entry(Scheme::NativeSegwit, "c"),
        ]
    );
}

#[test]
fn collect_omits_only_the_failed_encoding() {
    let some = collect(Some("a".to_string()), None, Some("c".to_string()));
    assert_eq!(some, vec![entry(Scheme::Legacy, "a"), entry(Scheme::NativeSegwit, "c")]);
    let legacy_only = collect(Some("a".to_string()), None, None);
    assert_eq!(legacy_only, vec![entry(Scheme::Legacy, "a")]);
    assert!(collect(None, None, None).is_empty());
}
