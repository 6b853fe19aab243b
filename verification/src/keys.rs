//! Ed25519 keys and signatures.

use vstd::prelude::*;
use vstd::std_specs::cmp::PartialEqSpec;
use vstd::utf8::encode_utf8;

verus! {

/// The length of the secret half of a key pair in bytes.
pub const SECRET_KEY_LENGTH: usize = 32;

/// The public key that belongs to a secret key.
pub uninterp spec fn ed25519_verifying_key(secret: Seq<u8>) -> Seq<u8>;

/// The signature of a message under a secret key.
pub uninterp spec fn ed25519_signature(secret: Seq<u8>, message: Seq<u8>) -> Seq<u8>;

/// The text of a sequence of bytes in base 58.
pub uninterp spec fn base58_text(bytes: Seq<u8>) -> Seq<char>;

/// Calls `ed25519_dalek::SigningKey::from_bytes` and `to_keypair_bytes`: the bytes of the secret
/// key, then those of the public key that belongs to it.
#[verifier::external_body]
fn dalek_keypair(secret: &[u8; 32]) -> (pair: [u8; 64])
    ensures
        pair@ == secret@ + ed25519_verifying_key(secret@),
{
    ed25519_dalek::SigningKey::from_bytes(secret).to_keypair_bytes()
}

/// Calls `sign` on the `ed25519_dalek::SigningKey` of a secret key: the bytes of the signature,
/// which depend on the secret key and the message alone.
#[verifier::external_body]
fn dalek_sign(secret: &[u8; 32], message: &[u8]) -> (signature: [u8; 64])
    ensures
        signature@ == ed25519_signature(secret@, message@),
{
    let key = ed25519_dalek::SigningKey::from_bytes(secret);
    ed25519_dalek::Signer::sign(&key, message).to_bytes()
}

/// Calls `bs58::encode` and `into_string`: the bytes in base 58, in Bitcoin's alphabet.
#[verifier::external_body]
fn base58(bytes: &[u8]) -> (text: String)
    ensures
        text@ == base58_text(bytes@),
{
    bs58::encode(bytes).into_string()
}

/// A signature. Its view is its bytes.
#[derive(Clone, Copy, Debug, PartialEq, Eq)]
pub enum Signature {
    ED25519([u8; 64]),
}

impl View for Signature {
    type V = Seq<u8>;

    open spec fn view(&self) -> Seq<u8> {
        match self {
            Signature::ED25519(bytes) => bytes@,
        }
    }
}

/// An Ed25519 public key. Its view is its bytes.
#[derive(Debug, Clone, Copy, PartialEq, Eq, PartialOrd, Ord)]
pub struct ED25519PublicKey(pub [u8; 32]);

impl View for ED25519PublicKey {
    type V = Seq<u8>;

    open spec fn view(&self) -> Seq<u8> {
        self.0@
    }
}

/// Public key. Its view is its bytes.
#[derive(Debug, Clone, Copy, PartialEq, Eq, PartialOrd, Ord)]
pub enum PublicKey {
    /// 256 bit elliptic curve based public-key.
    ED25519(ED25519PublicKey),
}

impl View for PublicKey {
    type V = Seq<u8>;

    open spec fn view(&self) -> Seq<u8> {
        match self {
            PublicKey::ED25519(key) => key@,
        }
    }
}

impl PublicKey {
    /// The key in base 58.
    pub fn to_string(&self) -> (text: String)
        ensures
            text@ == base58_text(self@),
    {
        match self {
            PublicKey::ED25519(key) => base58(key.0.as_slice()),
        }
    }
}

/// An Ed25519 key pair: the secret key, then the public key. Its view is its bytes.
#[derive(Debug, Clone, Copy)]
pub struct ED25519SecretKey(pub [u8; 64]);

impl View for ED25519SecretKey {
    type V = Seq<u8>;

    open spec fn view(&self) -> Seq<u8> {
        self.0@
    }
}

impl ED25519SecretKey {
    /// The secret half of the pair.
    pub open spec fn secret(self) -> Seq<u8> {
        self.0@.subrange(0, 32)
    }

    /// The public half of the pair.
    pub open spec fn public(self) -> Seq<u8> {
        self.0@.subrange(32, 64)
    }

    fn secret_bytes(&self) -> (secret: [u8; 32])
        ensures
            secret@ == self.secret(),
    {
        let mut secret: [u8; 32] = [0; 32];
        let mut i: usize = 0;
        while i < SECRET_KEY_LENGTH
            invariant
                i <= 32,
                forall|j: int| 0 <= j < i ==> secret@[j] == self.0@[j],
            decreases SECRET_KEY_LENGTH - i,
        {
            secret[i] = self.0[i];
            i += 1;
        }
        assert(secret@ =~= self.secret());
        secret
    }

    fn public_bytes(&self) -> (public: [u8; 32])
        ensures
            public@ == self.public(),
    {
        let mut public: [u8; 32] = [0; 32];
        let mut i: usize = 0;
        while i < 32
            invariant
                i <= 32,
                forall|j: int| 0 <= j < i ==> public@[j] == self.0@[32 + j],
            decreases 32 - i,
        {
            public[i] = self.0[SECRET_KEY_LENGTH + i];
            i += 1;
        }
        assert(public@ =~= self.public());
        public
    }
}

impl PartialEq for ED25519SecretKey {
    fn eq(&self, other: &ED25519SecretKey) -> (b: bool) {
        let mut i: usize = 0;
        while i < SECRET_KEY_LENGTH
            invariant
                i <= 32,
                forall|j: int| 0 <= j < i ==> self.0@[j] == other.0@[j],
            decreases SECRET_KEY_LENGTH - i,
        {
            if self.0[i] != other.0[i] {
                assert(self.secret()[i as int] != other.secret()[i as int]);
                return false;
            }
            i += 1;
        }
        assert(self.secret() =~= other.secret());
        true
    }
}

impl vstd::std_specs::cmp::PartialEqSpecImpl for ED25519SecretKey {
    open spec fn obeys_eq_spec() -> bool {
        true
    }

    open spec fn eq_spec(&self, other: &ED25519SecretKey) -> bool {
        self.secret() == other.secret()
    }
}

impl Eq for ED25519SecretKey {

}

/// The secret key that a seed stands for: its first 32 bytes, filled up with spaces.
pub open spec fn padded_seed(seed: Seq<u8>) -> Seq<u8> {
    Seq::new(
        32,
        |i: int|
            if i < seed.len() {
                seed[i]
            } else {
                32u8
            },
    )
}

/// The key pair that the text of a seed stands for: its secret key, then the public key that
/// belongs to it.
pub open spec fn seeded_keypair(seed: Seq<char>) -> Seq<u8> {
    let secret = padded_seed(encode_utf8(seed));
    secret + ed25519_verifying_key(secret)
}

/// Secret key container supporting different curves. Its view is the bytes of the key pair.
#[derive(Clone, Copy, PartialEq, Eq, Debug)]
pub enum SecretKey {
    ED25519(ED25519SecretKey),
}

impl View for SecretKey {
    type V = Seq<u8>;

    open spec fn view(&self) -> Seq<u8> {
        match self {
            SecretKey::ED25519(key) => key@,
        }
    }
}

impl SecretKey {
    /// The secret half of the key pair.
    pub open spec fn secret(self) -> Seq<u8> {
        match self {
            SecretKey::ED25519(key) => key.secret(),
        }
    }

    /// The key pair whose secret key is the given seed, cut or filled up with spaces to 32 bytes: the
    /// secret key, then the public key.
    pub fn ed25519_key_pair_from_seed(seed: &str) -> (pair: [u8; 64])
        ensures
            pair@ == seeded_keypair(seed@),
            pair@.subrange(0, 32) == padded_seed(encode_utf8(seed@)),
            pair@.subrange(32, 64) == ed25519_verifying_key(padded_seed(encode_utf8(seed@))),
    {
        let seed_bytes = seed.as_bytes();
        let mut secret: [u8; 32] = [32; 32];
        let mut i: usize = 0;
        while i < SECRET_KEY_LENGTH && i < seed_bytes.len()
            invariant
                i <= 32,
                i <= seed_bytes@.len(),
                forall|j: int| 0 <= j < i ==> secret@[j] == seed_bytes@[j],
                forall|j: int| i <= j < 32 ==> secret@[j] == 32u8,
            decreases SECRET_KEY_LENGTH - i,
        {
            secret[i] = seed_bytes[i];
            i += 1;
        }
        assert(secret@ =~= padded_seed(seed_bytes@));
        let pair = dalek_keypair(&secret);
        assert(pair@.subrange(0, 32) =~= secret@);
        assert(pair@.subrange(32, 64) =~= ed25519_verifying_key(secret@));
        pair
    }

    /// The key pair whose secret key is the given seed, cut or filled up with spaces to 32 bytes.
    pub fn from_seed(seed: &str) -> (key: SecretKey)
        ensures
            key@ == seeded_keypair(seed@),
    {
        SecretKey::ED25519(ED25519SecretKey(SecretKey::ed25519_key_pair_from_seed(seed)))
    }

    /// The public half of the key pair.
    pub fn public_key(&self) -> (key: PublicKey)
        ensures
            key@ == self@.subrange(32, 64),
    {
        match self {
            SecretKey::ED25519(key) => PublicKey::ED25519(ED25519PublicKey(key.public_bytes())),
        }
    }

    /// Signs a message.
    pub fn sign(&self, message: &[u8]) -> (signature: Signature)
        ensures
            signature@ == ed25519_signature(self.secret(), message@),
    {
        match self {
            SecretKey::ED25519(key) => Signature::ED25519(dalek_sign(&key.secret_bytes(), message)),
        }
    }
}

/// The secret half of a key made from a seed is the padded seed, and its public half is the public
/// key that belongs to it.
pub proof fn law_seeded_key_halves(key: SecretKey, seed: Seq<char>)
    requires
        key@ == seeded_keypair(seed),
    ensures
        key.secret() == padded_seed(encode_utf8(seed)),
        key@.subrange(32, 64) == ed25519_verifying_key(key.secret()),
{
    let secret = padded_seed(encode_utf8(seed));
    assert(key@.subrange(0, 32) =~= secret);
    assert(key@.len() == 64);
    assert(key@.subrange(32, 64) =~= ed25519_verifying_key(secret));
}

/// Texts that follow each other are encoded one after the other.
proof fn lemma_encode_utf8_append(a: Seq<char>, b: Seq<char>)
    ensures
        encode_utf8(a + b) == encode_utf8(a) + encode_utf8(b),
    decreases a.len(),
{
    if a.len() == 0 {
        assert(a + b =~= b);
        assert(encode_utf8(a) + encode_utf8(b) =~= encode_utf8(b));
    } else {
        lemma_encode_utf8_append(a.drop_first(), b);
        assert((a + b).drop_first() =~= a.drop_first() + b);
        assert(encode_utf8(a + b) =~= encode_utf8(a) + encode_utf8(b));
    }
}

/// Seeds that agree once they are cut or filled up to 32 bytes give the same key pair. Seeds whose
/// first 32 bytes are the same do.
pub proof fn law_seeds_that_pad_alike_give_one_key(seed1: Seq<char>, seed2: Seq<char>)
    ensures
        padded_seed(encode_utf8(seed1)) == padded_seed(encode_utf8(seed2)) ==> seeded_keypair(seed1)
            == seeded_keypair(seed2),
        encode_utf8(seed1).len() >= 32 && encode_utf8(seed2).len() >= 32 && encode_utf8(seed1).take(32)
            == encode_utf8(seed2).take(32) ==> seeded_keypair(seed1) == seeded_keypair(seed2),
{
    let b1 = encode_utf8(seed1);
    let b2 = encode_utf8(seed2);
    if b1.len() >= 32 && b2.len() >= 32 && b1.take(32) == b2.take(32) {
        assert forall|i: int| 0 <= i < 32 implies #[trigger] b1[i] == b2[i] by {
            assert(b1.take(32)[i] == b2.take(32)[i]);
        }
        assert(padded_seed(b1) =~= padded_seed(b2));
    }
}

/// A space at the end of a seed does not change the key pair, nor does anything after 32 bytes.
pub proof fn law_end_of_seed_is_padding(seed: Seq<char>, more: Seq<char>)
    ensures
        seeded_keypair(seed.push(' ')) == seeded_keypair(seed),
        encode_utf8(seed).len() >= 32 ==> seeded_keypair(seed + more) == seeded_keypair(seed),
{
    let bytes = encode_utf8(seed);
    let space = seq![' '];
    lemma_encode_utf8_append(seed, space);
    lemma_encode_utf8_append(seed, more);
    assert(seed.push(' ') =~= seed + space);
    assert(encode_utf8(space) =~= seq![32u8]) by {
        reveal_with_fuel(encode_utf8, 2);
        assert(32u32 & 0x7F == 32) by (bit_vector);
    }
    assert(padded_seed(bytes + seq![32u8]) =~= padded_seed(bytes));
    if bytes.len() >= 32 {
        assert(padded_seed(bytes + encode_utf8(more)) =~= padded_seed(bytes));
    }
}

/// Each byte of the secret half of a key made from a seed is that byte of the seed, or a space after
/// its end. The public half belongs to the secret one.
pub proof fn law_bytes_of_seeded_key(key: SecretKey, seed: Seq<char>, i: int)
    requires
        key@ == seeded_keypair(seed),
        0 <= i < 32,
    ensures
        key@[i] == (if i < encode_utf8(seed).len() {
            encode_utf8(seed)[i]
        } else {
            32u8
        }),
        key.secret() == key@.subrange(0, 32),
        key@.subrange(32, 64) == ed25519_verifying_key(key@.subrange(0, 32)),
{
    law_seeded_key_halves(key, seed);
    assert(key@.subrange(0, 32)[i] == key@[i]);
}

/// Two key pairs are equal if and only if each byte of their secret halves is.
pub proof fn law_equal_keys_have_equal_secrets(a: ED25519SecretKey, b: ED25519SecretKey)
    ensures
        a.eq_spec(&b) <==> forall|i: int| 0 <= i < 32 ==> a.0@[i] == b.0@[i],
{
    if forall|i: int| 0 <= i < 32 ==> a.0@[i] == b.0@[i] {
        assert(a.secret() =~= b.secret());
    }
    if a.secret() == b.secret() {
        assert forall|i: int| 0 <= i < 32 implies a.0@[i] == b.0@[i] by {
            assert(a.secret()[i] == b.secret()[i]);
        }
    }
}

/// The halves of a key pair are its first and its last 32 bytes, in order.
pub proof fn law_halves_of_key_pair(key: ED25519SecretKey)
    ensures
        key.secret().len() == 32,
        key.public().len() == 32,
        key.secret() + key.public() == key.0@,
        SecretKey::ED25519(key).secret() == key.secret(),
        SecretKey::ED25519(key)@ == key.0@,
{
    assert(key.secret() + key.public() =~= key.0@);
}

} // verus!
