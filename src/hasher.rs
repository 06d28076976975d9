//! Salted password digests and random hex tokens.
use vstd::prelude::*;
use rand::Rng;
use sha2::Digest;
use vstd::string::StringSliceAdditionalSpecFns;
use vstd::utf8::encode_utf8;

verus! {

/// The lowercase hexadecimal digit of a nibble.
pub open spec fn hex_digit(n: int) -> char {
    seq!['0', '1', '2', '3', '4', '5', '6', '7', '8', '9', 'a', 'b', 'c', 'd', 'e', 'f'][n]
}

/// Two lowercase hex digits per byte, high nibble first.
pub open spec fn hex_of(b: Seq<u8>) -> Seq<char>
    decreases b.len(),
{
    if b.len() == 0 {
        Seq::empty()
    } else {
        hex_of(b.drop_last()) + seq![hex_digit(b.last() as int / 16), hex_digit(b.last() as int % 16)]
    }
}

/// The SHA-256 digest of a byte string.
pub uninterp spec fn sha256_of(data: Seq<u8>) -> Seq<u8>;

/// The bytes that are hashed for a password and its salt: their UTF-8
/// encodings, one after the other.
pub open spec fn salted(password: Seq<char>, salt: Seq<char>) -> Seq<u8> {
    encode_utf8(password) + encode_utf8(salt)
}

/// The stored digest of a password under a salt.
pub open spec fn password_digest(password: Seq<char>, salt: Seq<char>) -> Seq<char> {
    hex_of(sha256_of(salted(password, salt)))
}

/// Whether `hash` is the stored digest of `password` under `salt`.
pub open spec fn password_matches(password: Seq<char>, salt: Seq<char>, hash: Seq<char>) -> bool {
    hash == password_digest(password, salt)
}

/// A string of 64 lowercase hex digits, as salts and tokens are.
pub open spec fn is_random_hex(s: Seq<char>) -> bool {
    exists|b: Seq<u8>| b.len() == 32 && s == hex_of(b)
}

/// Relies on rand::thread_rng and Rng::gen: 32 bytes from the thread's CSPRNG.
#[verifier::external_body]
fn random_bytes() -> (r: Vec<u8>)
    ensures
        r@.len() == 32,
{
    let bytes: [u8; 32] = rand::thread_rng().gen();
    bytes.to_vec()
}

/// Relies on hex::encode: two lowercase digits for each byte, high nibble first.
#[verifier::external_body]
fn hex_encode(b: &[u8]) -> (r: String)
    ensures
        r@ == hex_of(b@),
{
    hex::encode(b)
}

/// Relies on sha2::Sha256::digest: the 32-byte SHA-256 digest of the input.
#[verifier::external_body]
fn sha256(data: &[u8]) -> (r: Vec<u8>)
    ensures
        r@ == sha256_of(data@),
        r@.len() == 32,
{
    sha2::Sha256::digest(data).to_vec()
}

/// A fresh salt: 32 random bytes, hex-encoded.
pub fn generate_salt() -> (r: String)
    ensures
        is_random_hex(r@),
{
    let bytes = random_bytes();
    let r = hex_encode(bytes.as_slice());
    assert(bytes@.len() == 32 && r@ == hex_of(bytes@));
    r
}

/// A fresh bearer token: 32 random bytes, hex-encoded.
pub fn generate_token() -> (r: String)
    ensures
        is_random_hex(r@),
{
    let bytes = random_bytes();
    let r = hex_encode(bytes.as_slice());
    assert(bytes@.len() == 32 && r@ == hex_of(bytes@));
    r
}

/// The hex digest of SHA-256 over the password's bytes followed by the salt's.
pub fn hash_password(password: &str, salt: &str) -> (r: String)
    ensures
        r@ == password_digest(password@, salt@),
{
    let p = password.as_bytes();
    let s = salt.as_bytes();
    let mut data: Vec<u8> = Vec::new();
    let mut i: usize = 0;
    while i < p.len()
        invariant
            i <= p@.len(),
            data@ == p@.subrange(0, i as int),
        decreases p@.len() - i,
    {
        data.push(p[i]);
        i = i + 1;
    }
    let mut j: usize = 0;
    while j < s.len()
        invariant
            j <= s@.len(),
            data@ == p@ + s@.subrange(0, j as int),
        decreases s@.len() - j,
    {
        data.push(s[j]);
        j = j + 1;
    }
    assert(p@.subrange(0, p@.len() as int) == p@);
    assert(s@.subrange(0, s@.len() as int) == s@);
    let digest = sha256(data.as_slice());
    hex_encode(digest.as_slice())
}

/// Whether `hash` is the digest of `password` under `salt`.
pub fn verify_password(password: &str, salt: &str, hash: &str) -> (r: bool)
    ensures
        r == password_matches(password@, salt@, hash@),
{
    let computed = hash_password(password, salt);
    let expected = hash.to_owned();
    computed == expected
}

/// A digest made by `hash_password` verifies: `verify_password` accepts the
/// password and salt that produced it.
pub proof fn lemma_hash_then_verify(password: Seq<char>, salt: Seq<char>, hash: Seq<char>)
    requires
        hash == password_digest(password, salt),
    ensures
        password_matches(password, salt, hash),
{
}

} // verus!
