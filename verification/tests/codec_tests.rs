use pool_miner::codec::{
    decode_address, decode_hash, decode_nonce, encode_hash, encode_nonce,
};

#[test]
fn nonce_is_written_in_lower_case_hex() {
    assert_eq!(encode_nonce(&[0u8; 8]), "0000000000000000");
    assert_eq!(encode_nonce(&[0x01, 0x23, 0x45, 0x67, 0x89, 0xab, 0xcd, 0xef]), "0123456789abcdef");
    assert_eq!(encode_nonce(&[0xff; 8]), "ffffffffffffffff");
}

#[test]
fn nonce_text_is_read_in_either_case() {
    assert_eq!(decode_nonce("0123456789abcdef"), Ok(vec![0x01, 0x23, 0x45, 0x67, 0x89, 0xab, 0xcd, 0xef]));
    assert_eq!(decode_nonce("ABCDEF"), Ok(vec![0xab, 0xcd, 0xef]));
    assert_eq!(decode_nonce("aBcD"), Ok(vec![0xab, 0xcd]));
    assert_eq!(decode_nonce(""), Ok(vec![]));
}

#[test]
fn nonce_text_of_odd_length_is_refused() {
    assert_eq!(decode_nonce("abc"), Err("Odd number of digits".to_string()));
}

#[test]
fn nonce_text_with_a_wrong_character_is_refused() {
    assert_eq!(decode_nonce("0g"), Err("Invalid character 'g' at position 1".to_string()));
    assert!(decode_nonce("12 4").is_err());
    assert!(decode_nonce("\u{e9}").is_err());
    assert!(decode_nonce("\u{e9}a").is_err());
}

#[test]
fn nonce_round_trip() {
    for nonce in [0u64, 1, 255, 256, 0xdead_beef, u64::MAX, 0x0102_0304_0506_0708] {
        let bytes = nonce.to_le_bytes();
        assert_eq!(decode_nonce(&encode_nonce(&bytes)), Ok(bytes.to_vec()));
    }
}

#[test]
fn hash_is_written_in_base58() {
    assert_eq!(encode_hash(&[0u8; 32]), "11111111111111111111111111111111");
    let mut one = [0u8; 32];
    one[31] = 1;
    assert_eq!(encode_hash(&one), "11111111111111111111111111111112");
    let mut big = [0u8; 32];
    big[31] = 58;
    assert_eq!(encode_hash(&big), "111111111111111111111111111111121");
}

#[test]
fn hash_text_is_read_from_base58() {
    assert_eq!(decode_hash("he11owor1d"), Ok(vec![0x04, 0x30, 0x5e, 0x2b, 0x24, 0x73, 0xf0, 0x58]));
    assert_eq!(decode_hash(""), Ok(vec![]));
    assert_eq!(decode_hash("1"), Ok(vec![0]));
    assert_eq!(decode_hash("2"), Ok(vec![1]));
}

#[test]
fn hash_text_outside_the_alphabet_is_refused() {
    assert_eq!(
        decode_hash("he11owor1d0"),
        Err("provided string contained invalid character '0' at byte 10".to_string())
    );
    assert!(decode_hash("O").is_err());
    assert!(decode_hash("I").is_err());
    assert!(decode_hash("l").is_err());
    assert!(decode_hash("abc def").is_err());
    assert_eq!(
        decode_hash("\u{e9}"),
        Err("provided string contained non-ascii character starting at byte 0".to_string())
    );
}

#[test]
fn every_character_of_the_alphabet_is_read() {
    let alphabet = "123456789ABCDEFGHJKLMNPQRSTUVWXYZabcdefghijkmnopqrstuvwxyz";
    assert!(decode_hash(alphabet).is_ok());
    for c in alphabet.chars() {
        assert!(decode_hash(&c.to_string()).is_ok());
    }
    for c in "0OIl+/=-_ !@~".chars() {
        assert!(decode_hash(&c.to_string()).is_err());
    }
}

#[test]
fn hash_round_trip() {
    let mut hash = [0u8; 32];
    for round in 0..50u32 {
        for (i, b) in hash.iter_mut().enumerate() {
            *b = (round.wrapping_mul(31).wrapping_add(i as u32 * 7) % 256) as u8;
        }
        if round % 3 == 0 {
            hash[0] = 0;
            hash[1] = 0;
        }
        let text = encode_hash(&hash);
        assert_eq!(decode_hash(&text), Ok(hash.to_vec()));
    }
    assert_eq!(decode_hash(&encode_hash(&[0xffu8; 32])), Ok(vec![0xffu8; 32]));
}

#[test]
fn address_of_32_bytes_is_read() {
    assert_eq!(decode_address("11111111111111111111111111111111"), Ok([0u8; 32]));
    let mut one = [0u8; 32];
    one[31] = 1;
    assert_eq!(decode_address("11111111111111111111111111111112"), Ok(one));
    let key = [0xabu8; 32];
    assert_eq!(decode_address(&encode_hash(&key)), Ok(key));
}

#[test]
fn address_of_another_size_is_refused() {
    assert_eq!(decode_address("abc"), Err("String is the wrong size".to_string()));
    assert_eq!(decode_address(""), Err("String is the wrong size".to_string()));
    let long = "1".repeat(45);
    assert_eq!(decode_address(&long), Err("String is the wrong size".to_string()));
}

#[test]
fn address_outside_the_alphabet_is_refused() {
    assert_eq!(
        decode_address("0OIl1111111111111111111111111111"),
        Err("Invalid Base58 string".to_string())
    );
}
