use ark_bn254::Fr;
use ark_ff::{BigInteger, PrimeField};
use cyan_backend::invitation::{accept_invitation, create_invitation};

#[test]
fn a_code_is_the_key_modulo_the_order() {
    // The order of the field, the lowest byte first.
    let order: [u8; 32] = [
        0x01, 0x00, 0x00, 0xf0, 0x93, 0xf5, 0xe1, 0x43, 0x91, 0x70, 0xb9, 0x79, 0x48, 0xe8, 0x33,
        0x28, 0x5d, 0x58, 0x81, 0x81, 0xb6, 0x45, 0x50, 0xb8, 0x29, 0xa0, 0x31, 0xe1, 0x72, 0x4e,
        0x64, 0x30,
    ];
    let mut key = order;
    key[0] = 6;
    let i = create_invitation(&key, 3, b"bob", &[0u8; 32], 10);
    assert_eq!(i.code[0], 5);
    assert!(i.code[1..].iter().all(|b| *b == 0));
    assert_eq!(i.nonce[0], 3);
    let i = create_invitation(&key, 0, b"bob", &[0u8; 32], 10);
    assert_eq!(i.hash, i.code);
}

#[test]
fn the_hash_binds_person_workspace_and_expiry() {
    let key = [7u8; 40];
    let workspace = [9u8; 32];
    let i = create_invitation(&key, 12345, b"bob", &workspace, 1000);
    let bob = Fr::from_le_bytes_mod_order(blake3::hash(b"bob").as_bytes());
    let expected = Fr::from_le_bytes_mod_order(&key[..32])
        + Fr::from(12345u64) * bob
        + Fr::from_le_bytes_mod_order(&workspace) * Fr::from(1000u64);
    assert_eq!(i.hash, expected.into_bigint().to_bytes_le());
    let check = |stored: Option<u64>, now: u64, who: &[u8], ws: &[u8], expiry: u64| {
        accept_invitation(stored, now, &i.code, &i.nonce, &i.hash, who, ws, expiry)
    };
    assert!(check(Some(1000), 1000, b"bob", &workspace, 1000));
    assert!(!check(Some(1000), 1001, b"bob", &workspace, 1000));
    assert!(!check(None, 0, b"bob", &workspace, 1000));
    assert!(!check(Some(1000), 0, b"eve", &workspace, 1000));
    assert!(!check(Some(1000), 0, b"bob", &[8u8; 32], 1000));
    assert!(!check(Some(1000), 0, b"bob", &workspace, 1001));
}

#[test]
fn an_invitation_takes_96_bytes() {
    let i = create_invitation(&[1u8; 32], 2, b"bob", &[3u8; 32], 4);
    assert!(i.to_bytes(95).is_none());
    let bytes = i.to_bytes(96).unwrap();
    assert_eq!(bytes.len(), 96);
    assert_eq!(bytes[..32], i.code[..]);
    assert_eq!(bytes[64..], i.hash[..]);
    let record = i.record(vec![3u8; 32], &[5u8; 40], b"bob", 4, 1);
    assert_eq!(record.inviter_id, vec![5u8; 32]);
    assert_eq!(record.invitee_id, blake3::hash(b"bob").as_bytes().to_vec());
    assert_eq!(record.invitation_hash, i.hash);
}
