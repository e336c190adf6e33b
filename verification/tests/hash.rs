use cyan_backend::hash::{decode_secret_key, hash_bytes, hash_data, hash_text, KeyError};

#[test]
fn digests_are_written_in_hexadecimal() {
    assert_eq!(
        hash_text(""),
        "af1349b9f5f9a1a6a0404dea36dcc9499bcb25c9adc112b7cc9a93cae41f3262"
    );
    assert_eq!(
        hash_text("abc"),
        "6437b3ac38465133ffb63b75273a8db548c558465d79db03fd359c6cd5bd9d85"
    );
    assert_eq!(hash_bytes(b"abc"), hash_text("abc"));
    assert_ne!(hash_text("abc"), "abc");
    let digest = hash_data(b"abc");
    assert_eq!(digest, *blake3::hash(b"abc").as_bytes());
    assert_eq!(digest[..2], [0x64, 0x37]);
}

#[test]
fn a_secret_key_is_64_digits() {
    let text = "000102030405060708090a0b0c0d0e0f101112131415161718191A1B1C1D1E1F";
    let key = decode_secret_key(text).unwrap();
    assert_eq!(key[0], 0);
    assert_eq!(key[10], 0x0a);
    assert_eq!(key[31], 0x1f);
    assert!(matches!(decode_secret_key("zz"), Err(KeyError::NotHex)));
    assert!(matches!(decode_secret_key("abc"), Err(KeyError::NotHex)));
    assert!(matches!(decode_secret_key("abcd"), Err(KeyError::WrongLength(2))));
}

#[test]
fn encoding_and_decoding_cancel() {
    let id = hash_text("anything");
    let key = decode_secret_key(id.as_str()).unwrap();
    let mut back = String::new();
    for b in key {
        back.push_str(&format!("{:02x}", b));
    }
    assert_eq!(back, id);
}
