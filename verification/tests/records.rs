use keyscan::record::MatchRecord;

fn key_one() -> Vec<u8> {
    let mut key = vec![0u8; 32];
    key[31] = 1;
    key
}

#[test]
fn record_holds_hex_wif_and_address() {
    let record = MatchRecord::for_key(&key_one(), "1BgGZ9tcN4rm9KBzDn7KprQz87SZ26SAMH".to_string())
        .expect("one is a private key");
    assert_eq!(
        record.key_hex,
        "0000000000000000000000000000000000000000000000000000000000000001"
    );
    assert_eq!(record.wif, "KwDiBf89QgGbjEhKnhXJuH7LrciVrZi3qYjgd9M7rFU73sVHnoWn");
    assert_eq!(record.address, "1BgGZ9tcN4rm9KBzDn7KprQz87SZ26SAMH");
}

#[test]
fn hex_is_lower_case_two_digits_per_byte() {
    let key: Vec<u8> = (0..32u8).map(|i| i.wrapping_mul(37).wrapping_add(0xab)).collect();
    let record = MatchRecord::for_key(&key, String::new()).expect("a private key");
    let expected: String = key.iter().map(|b| format!("{:02x}", b)).collect();
    assert_eq!(record.key_hex, expected);
    assert_eq!(record.key_hex.len(), 64);
    assert!(record.key_hex.starts_with("abd0f5"));
}

#[test]
fn no_record_for_bytes_that_are_no_key() {
    assert_eq!(MatchRecord::for_key(&[0u8; 32], "x".to_string()), None);
    assert_eq!(MatchRecord::for_key(&[0xffu8; 32], "x".to_string()), None);
    assert_eq!(MatchRecord::for_key(&[1u8; 31], "x".to_string()), None);
}

#[test]
fn render_gives_the_four_lines() {
    let record = MatchRecord {
        key_hex: "ab01".to_string(),
        wif: "Kx".to_string(),
        address: "1A".to_string(),
    };
    assert_eq!(
        record.render(),
        "ENCONTRADA DIRECCIÓN CON BALANCE!\nPrivate Key: ab01\nWIF: Kx\nAddress: 1A\n"
    );
}

#[test]
fn render_of_empty_fields_keeps_the_labels() {
    let record =
        MatchRecord { key_hex: String::new(), wif: String::new(), address: String::new() };
    assert_eq!(record.render(), "ENCONTRADA DIRECCIÓN CON BALANCE!\nPrivate Key: \nWIF: \nAddress: \n");
}

#[test]
fn render_of_a_real_record() {
    let record = MatchRecord::for_key(&key_one(), "1BgGZ9tcN4rm9KBzDn7KprQz87SZ26SAMH".to_string())
        .expect("one is a private key");
    let block = record.render();
    let lines: Vec<&str> = block.split('\n').collect();
    assert_eq!(
        lines,
        vec![
            "ENCONTRADA DIRECCIÓN CON BALANCE!",
            "Private Key: 0000000000000000000000000000000000000000000000000000000000000001",
            "WIF: KwDiBf89QgGbjEhKnhXJuH7LrciVrZi3qYjgd9M7rFU73sVHnoWn",
            "Address: 1BgGZ9tcN4rm9KBzDn7KprQz87SZ26SAMH",
            "",
        ]
    );
}
