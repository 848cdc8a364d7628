use vstd::prelude::*;
use vstd::utf8::encode_utf8;
use crate::error::AuthError;

verus! {

/// What `argon2::hash_raw` returns under the default configuration.
pub uninterp spec fn argon2_raw(pwd: Seq<u8>, salt: Seq<u8>) -> Seq<u8>;

/// What `argon2::hash_encoded` returns under the default configuration: the
/// hash together with its parameters and salt, in one string.
pub uninterp spec fn argon2_encoded(pwd: Seq<u8>, salt: Seq<u8>) -> Seq<char>;

/// Whether `argon2::verify_encoded` accepts `pwd` against `encoded`
/// (returns `Ok(true)`).
pub uninterp spec fn argon2_accepts(encoded: Seq<char>, pwd: Seq<u8>) -> bool;

/// The lowercase hexadecimal digit of `v < 16`.
pub open spec fn hex_digit(v: u8) -> char {
    if v < 10 {
        (48 + v) as char
    } else {
        (87 + v) as char
    }
}

/// Two lowercase hexadecimal digits per byte, high nibble first.
pub open spec fn hex_text(b: Seq<u8>) -> Seq<char>
    decreases b.len(),
{
    if b.len() == 0 {
        seq![]
    } else {
        hex_text(b.drop_last()) + seq![hex_digit(b.last() / 16), hex_digit(b.last() % 16)]
    }
}

/// A lowercase hexadecimal digit.
pub open spec fn is_lower_hex(c: char) -> bool {
    ('0' <= c && c <= '9') || ('a' <= c && c <= 'f')
}

/// Hex text has two lowercase digits per byte.
pub proof fn lemma_hex_text_shape(b: Seq<u8>)
    ensures
        hex_text(b).len() == 2 * b.len(),
        forall|i: int| 0 <= i < hex_text(b).len() ==> is_lower_hex(#[trigger] hex_text(b)[i]),
    decreases b.len(),
{
    if b.len() > 0 {
        lemma_hex_text_shape(b.drop_last());
        let hi = b.last() / 16;
        let lo = b.last() % 16;
        assert(is_lower_hex(hex_digit(hi)));
        assert(is_lower_hex(hex_digit(lo)));
        let h = hex_text(b);
        let p = hex_text(b.drop_last());
        assert forall|i: int| 0 <= i < h.len() implies is_lower_hex(#[trigger] h[i]) by {
            if i < p.len() {
                assert(h[i] == p[i]);
            }
        }
    }
}

/// Lengths that argon2's default configuration accepts.
pub open spec fn hashable(pwd: Seq<u8>, salt: Seq<u8>) -> bool {
    pwd.len() <= u32::MAX && 8 <= salt.len() <= u32::MAX
}

/// The client-side transform of a password under a given salt.
pub open spec fn prehash_of(password: Seq<char>, salt: Seq<u8>) -> Seq<char> {
    hex_text(argon2_raw(encode_utf8(password), salt))
}

/// Relies on `fxhash::hash64` of the password, rendered by `u64::to_le_bytes`:
/// the salt of the client-side transform. It depends on the machine's byte
/// order, so nothing is stated of it.
#[verifier::external_body]
fn password_salt(password: &str) -> [u8; 8] {
    fxhash::hash64(password).to_le_bytes()
}

/// Relies on `rand::random::<u128>`, rendered by `u128::to_le_bytes`: 128
/// random bits for a storage salt.
#[verifier::external_body]
pub(crate) fn random_salt() -> [u8; 16] {
    rand::random::<u128>().to_le_bytes()
}

/// Relies on `argon2::hash_raw` with `Config::default()`, which fails exactly
/// on a password or salt length outside the configuration's bounds and
/// otherwise returns `hash_length` (32) bytes.
#[verifier::external_body]
fn argon2_hash_raw(pwd: &[u8], salt: &[u8]) -> (r: Result<Vec<u8>, argon2::Error>)
    ensures
        r is Ok ==> r->Ok_0@ == argon2_raw(pwd@, salt@),
        r is Ok ==> r->Ok_0@.len() == 32,
        r is Ok <==> hashable(pwd@, salt@),
{
    argon2::hash_raw(pwd, salt, &argon2::Config::default())
}

/// Relies on `argon2::hash_encoded` with `Config::default()`, which fails exactly
/// on a password or salt length outside the configuration's bounds, and whose
/// result `argon2::verify_encoded` accepts for the same password.
#[verifier::external_body]
fn argon2_hash_encoded(pwd: &[u8], salt: &[u8]) -> (r: Result<String, argon2::Error>)
    ensures
        r is Ok ==> r->Ok_0@ == argon2_encoded(pwd@, salt@),
        r is Ok ==> argon2_accepts(r->Ok_0@, pwd@),
        r is Ok <==> hashable(pwd@, salt@),
{
    argon2::hash_encoded(pwd, salt, &argon2::Config::default())
}

/// Relies on `argon2::verify_encoded`, which re-derives the hash from the
/// parameters and salt written in `encoded`.
#[verifier::external_body]
fn argon2_verify_encoded(encoded: &str, pwd: &[u8]) -> (r: Result<bool, argon2::Error>)
    ensures
        (r matches Ok(b) && b) <==> argon2_accepts(encoded@, pwd@),
{
    argon2::verify_encoded(encoded, pwd)
}

/// Relies on `hex::encode`: two lowercase digits per byte, in order.
#[verifier::external_body]
fn hex_encode(b: &[u8]) -> (r: String)
    ensures
        r@ == hex_text(b@),
{
    hex::encode(b)
}

/// The client-side transform of `password` under `salt`: a memory-hard hash,
/// hex-encoded.
pub fn prehash_with_salt(password: &str, salt: &[u8]) -> (r: Result<String, AuthError>)
    ensures
        r is Ok <==> hashable(encode_utf8(password@), salt@),
        r is Ok ==> r->Ok_0@ == prehash_of(password@, salt@),
        r is Ok ==> r->Ok_0@.len() == 64,
        r is Ok ==> forall|i: int| 0 <= i < r->Ok_0@.len() ==> is_lower_hex(#[trigger] r->Ok_0@[i]),
        r is Err ==> r->Err_0 is Hash,
{
    match argon2_hash_raw(password.as_bytes(), salt) {
        Ok(bytes) => {
            proof {
                lemma_hex_text_shape(bytes@);
            }
            Ok(hex_encode(bytes.as_slice()))
        },
        Err(e) => Err(AuthError::Hash(e)),
    }
}

/// The client-side transform of `password`, salted by a fast hash of the
/// password itself, so that equal passwords give equal results.
pub fn net_prehash(password: &str) -> (r: Result<String, AuthError>)
    ensures
        r is Ok <==> encode_utf8(password@).len() <= u32::MAX,
        r is Ok ==> exists|salt: Seq<u8>| salt.len() == 8 && r->Ok_0@ == prehash_of(password@, salt),
        r is Ok ==> r->Ok_0@.len() == 64,
        r is Ok ==> forall|i: int| 0 <= i < r->Ok_0@.len() ==> is_lower_hex(#[trigger] r->Ok_0@[i]),
        r is Err ==> r->Err_0 is Hash,
{
    let salt = password_salt(password);
    prehash_with_salt(password, &salt)
}

/// The stored form of a pre-hashed password under `salt`.
pub fn storage_hash_with_salt(prehash: &str, salt: &[u8]) -> (r: Result<String, AuthError>)
    ensures
        r is Ok <==> hashable(encode_utf8(prehash@), salt@),
        r is Ok ==> r->Ok_0@ == argon2_encoded(encode_utf8(prehash@), salt@),
        r is Ok ==> argon2_accepts(r->Ok_0@, encode_utf8(prehash@)),
        r is Err ==> r->Err_0 is Hash,
{
    match argon2_hash_encoded(prehash.as_bytes(), salt) {
        Ok(s) => Ok(s),
        Err(e) => Err(AuthError::Hash(e)),
    }
}

/// The stored form of a pre-hashed password under a fresh random salt.
pub fn storage_hash(prehash: &str) -> (r: Result<String, AuthError>)
    ensures
        r is Ok <==> encode_utf8(prehash@).len() <= u32::MAX,
        r is Ok ==> exists|salt: Seq<u8>|
            salt.len() == 16 && r->Ok_0@ == #[trigger] argon2_encoded(encode_utf8(prehash@), salt),
        r is Ok ==> argon2_accepts(r->Ok_0@, encode_utf8(prehash@)),
        r is Err ==> r->Err_0 is Hash,
{
    let salt = random_salt();
    storage_hash_with_salt(prehash, &salt)
}

/// Whether `prehash` matches the stored hash; false on any mismatch,
/// including a malformed stored hash.
pub fn verify_storage(stored: &str, prehash: &str) -> (r: bool)
    ensures
        r == argon2_accepts(stored@, encode_utf8(prehash@)),
{
    match argon2_verify_encoded(stored, prehash.as_bytes()) {
        Ok(b) => b,
        Err(_) => false,
    }
}

} // verus!
