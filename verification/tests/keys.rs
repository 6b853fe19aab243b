use doomslug::hash::{hash, CryptoHash};
use doomslug::keys::{ED25519PublicKey, ED25519SecretKey, PublicKey, SecretKey, Signature};
use std::hash::{Hash, Hasher};

const PUBLIC_KEY_OF_TEST: [u8; 32] = [
    187, 77, 198, 57, 178, 18, 224, 117, 167, 81, 104, 91, 38, 189, 206, 165, 146, 10, 80, 65, 129,
    255, 41, 16, 232, 84, 151, 66, 18, 112, 146, 160,
];

#[test]
fn hashes_are_sha256() {
    let of_nothing: [u8; 32] = [
        227, 176, 196, 66, 152, 252, 28, 20, 154, 251, 244, 200, 153, 111, 185, 36, 39, 174, 65, 228,
        100, 155, 147, 76, 164, 149, 153, 27, 120, 82, 184, 85,
    ];
    let of_one: [u8; 32] = [
        75, 245, 18, 47, 52, 69, 84, 197, 59, 222, 46, 187, 140, 210, 183, 227, 209, 96, 10, 214, 49,
        195, 133, 165, 215, 204, 226, 60, 119, 133, 69, 154,
    ];
    assert_eq!(hash(&[]).0, of_nothing);
    assert_eq!(hash(&[1]).0, of_one);
    assert_eq!(CryptoHash::hash_bytes(&[1]), hash(&[1]));
}

#[test]
fn empty_hash_is_zero() {
    assert_eq!(CryptoHash::LENGTH, 32);
    assert_eq!(CryptoHash::new().0, [0; 32]);
    assert_eq!(CryptoHash::default(), CryptoHash::new());
    let bytes: &[u8] = &[0; 32];
    assert_eq!(CryptoHash::new().as_ref(), bytes);
    assert_eq!(CryptoHash::new().as_bytes(), bytes);
}

struct Recorder(Vec<u8>);

impl Hasher for Recorder {
    fn write(&mut self, bytes: &[u8]) {
        self.0.extend_from_slice(bytes);
    }

    fn finish(&self) -> u64 {
        0
    }
}

#[test]
fn hasher_gets_the_bytes_and_nothing_else() {
    let value = hash(&[1]);
    let mut recorder = Recorder(vec![]);
    value.hash(&mut recorder);
    assert_eq!(recorder.0, value.0);
}

#[test]
fn hashes_are_compared_by_all_bytes() {
    let mut bytes: [u8; 32] = [7; 32];
    let a = CryptoHash(bytes);
    assert!(a.same(&CryptoHash([7; 32])));
    bytes[31] = 8;
    assert!(!a.same(&CryptoHash(bytes)));
    bytes[31] = 7;
    bytes[0] = 8;
    assert!(!a.same(&CryptoHash(bytes)));
}

#[test]
fn key_from_seed_is_padded_with_spaces() {
    let SecretKey::ED25519(ED25519SecretKey(pair)) = SecretKey::from_seed("test");
    assert_eq!(&pair[..4], b"test");
    assert_eq!(&pair[4..32], [b' '; 28]);
    assert_eq!(&pair[32..], PUBLIC_KEY_OF_TEST);
}

#[test]
fn key_from_long_seed_is_cut() {
    let long = SecretKey::from_seed("aaaaaaaaaaaaaaaaaaaaaaaaaaaaaaaaaaaaaaaa");
    let exact = SecretKey::from_seed("aaaaaaaaaaaaaaaaaaaaaaaaaaaaaaaa");
    assert_eq!(long, exact);
    assert_eq!(long.public_key().to_string(), "CnEDk9HrMnmiHXEV1WFgbVCRteYnPqsJwrTdcZaNhFVW");
}

#[test]
fn seeds_that_pad_alike_give_one_key() {
    let SecretKey::ED25519(ED25519SecretKey(a)) = SecretKey::from_seed("test");
    let SecretKey::ED25519(ED25519SecretKey(b)) = SecretKey::from_seed("test ");
    assert_eq!(a, b);
    assert_eq!(a, SecretKey::ed25519_key_pair_from_seed("test    "));
    let other = SecretKey::ed25519_key_pair_from_seed(" test");
    assert_ne!(a, other);
    let long = SecretKey::ed25519_key_pair_from_seed("aaaaaaaaaaaaaaaaaaaaaaaaaaaaaaaab");
    assert_eq!(long, SecretKey::ed25519_key_pair_from_seed("aaaaaaaaaaaaaaaaaaaaaaaaaaaaaaaac"));
}

#[test]
fn key_from_seed_uses_its_utf8_bytes() {
    let key = SecretKey::from_seed("\u{e9}".repeat(20).as_str());
    assert_eq!(key.public_key().to_string(), "2aFxhAYGwLBu2pvP7T5avswANtAVA25M9PZJ6VGyv4b4");
}

#[test]
fn key_from_empty_seed_is_all_spaces() {
    let key = SecretKey::from_seed("");
    let SecretKey::ED25519(ED25519SecretKey(pair)) = key;
    assert_eq!(&pair[..32], [b' '; 32]);
    assert_eq!(key.public_key().to_string(), "6JhaGdekBjU2RfiYWSjYdQAibx4LfSfTNFEeMUHnUVz7");
}

#[test]
fn public_key_is_the_second_half() {
    let mut pair: [u8; 64] = [1; 64];
    pair[32] = 9;
    pair[63] = 8;
    let PublicKey::ED25519(ED25519PublicKey(public)) =
        SecretKey::ED25519(ED25519SecretKey(pair)).public_key();
    assert_eq!(&public[..], &pair[32..]);
    let PublicKey::ED25519(key) = SecretKey::from_seed("test").public_key();
    assert_eq!(key.0, PUBLIC_KEY_OF_TEST);
}

#[test]
fn public_key_is_shown_in_base58() {
    let key = SecretKey::from_seed("test").public_key();
    assert_eq!(key.to_string(), "DcA2MzgpJbrUATQLLceocVckhhAqrkingax4oJ9kZ847");
    let zero = PublicKey::ED25519(ED25519PublicKey([0; 32]));
    assert_eq!(zero.to_string(), "1".repeat(32));
}

#[test]
fn secret_keys_are_compared_by_their_secret_half() {
    let a = ED25519SecretKey([5; 64]);
    let mut pair: [u8; 64] = [5; 64];
    pair[32] = 6;
    assert!(a == ED25519SecretKey(pair));
    pair[31] = 6;
    assert!(a != ED25519SecretKey(pair));
    pair[31] = 5;
    pair[0] = 6;
    assert!(a != ED25519SecretKey(pair));
}

#[test]
fn signatures_are_deterministic_and_verify() {
    let key = SecretKey::from_seed("test");
    let message: [u8; 17] = [1, 1, 0, 0, 0, 0, 0, 0, 0, 3, 0, 0, 0, 0, 0, 0, 0];
    let expected: [u8; 64] = [
        142, 10, 251, 6, 43, 75, 117, 182, 208, 192, 181, 77, 209, 188, 96, 242, 248, 119, 81, 147,
        114, 12, 147, 165, 32, 234, 101, 88, 89, 99, 193, 130, 147, 68, 23, 250, 175, 39, 152, 220,
        90, 120, 212, 117, 51, 16, 4, 45, 59, 41, 24, 96, 14, 40, 39, 229, 244, 75, 99, 164, 132, 4,
        215, 2,
    ];
    assert_eq!(key.sign(&message), Signature::ED25519(expected));
    assert_ne!(key.sign(&message[1..]), Signature::ED25519(expected));
    assert_ne!(SecretKey::from_seed("test1").sign(&message), Signature::ED25519(expected));
    let verifying = ed25519_dalek::VerifyingKey::from_bytes(&PUBLIC_KEY_OF_TEST).unwrap();
    let signature = ed25519_dalek::Signature::from_bytes(&expected);
    assert!(verifying.verify_strict(&message, &signature).is_ok());
}
