//! The calls into the cryptographic crates, each behind a trusted item.
//!
//! Deterministic functions (digests, PBKDF2, scrypt) have their results named
//! by uninterpreted spec functions over the plain inputs. Functions that draw
//! randomness (bcrypt, Argon2 salts, raw salt bytes) state only what holds of
//! every outcome.

use vstd::prelude::*;
use vstd::arithmetic::power2::pow2;
use sha2::Digest;
use rand_core::RngCore;
use argon2::password_hash::PasswordHasher;

verus! {

#[verifier::external_type_specification]
#[verifier::external_body]
pub struct ExBcryptError(bcrypt::BcryptError);

#[verifier::external_type_specification]
#[verifier::external_body]
pub struct ExPasswordHashError(argon2::password_hash::Error);

#[verifier::external_type_specification]
#[verifier::external_body]
pub struct ExScryptInvalidParams(scrypt::errors::InvalidParams);

#[verifier::external_type_specification]
#[verifier::external_body]
pub struct ExScryptInvalidOutputLen(scrypt::errors::InvalidOutputLen);

// ---------------------------------------------------------------- digests

/// The MD5 digest of a byte string.
pub uninterp spec fn md5_digest(data: Seq<u8>) -> Seq<u8>;

/// The SHA-1 digest of a byte string.
pub uninterp spec fn sha1_digest(data: Seq<u8>) -> Seq<u8>;

/// The SHA-256 digest of a byte string.
pub uninterp spec fn sha256_digest(data: Seq<u8>) -> Seq<u8>;

/// The SHA-512 digest of a byte string.
pub uninterp spec fn sha512_digest(data: Seq<u8>) -> Seq<u8>;

/// The SHA3-256 digest of a byte string.
pub uninterp spec fn sha3_256_digest(data: Seq<u8>) -> Seq<u8>;

/// The SHA3-512 digest of a byte string.
pub uninterp spec fn sha3_512_digest(data: Seq<u8>) -> Seq<u8>;

/// The BLAKE2b digest with 512-bit output of a byte string.
pub uninterp spec fn blake2b512_digest(data: Seq<u8>) -> Seq<u8>;

/// The BLAKE2s digest with 256-bit output of a byte string.
pub uninterp spec fn blake2s256_digest(data: Seq<u8>) -> Seq<u8>;

/// `md5::Md5::digest` (crate md-5). Trusted: the 16 bytes returned are
/// `md5_digest` of the input.
#[verifier::external_body]
pub(crate) fn md5(data: &[u8]) -> (r: [u8; 16])
    ensures
        r@ == md5_digest(data@),
        r@.len() == 16,
{
    md5::Md5::digest(data).into()
}

/// `sha1::Sha1::digest`. Trusted: the result is `sha1_digest` of the input,
/// 20 bytes long.
#[verifier::external_body]
pub(crate) fn sha1(data: &[u8]) -> (r: Vec<u8>)
    ensures
        r@ == sha1_digest(data@),
        r@.len() == 20,
{
    sha1::Sha1::digest(data).to_vec()
}

/// `sha2::Sha256::digest`. Trusted: the result is `sha256_digest` of the
/// input, 32 bytes long.
#[verifier::external_body]
pub(crate) fn sha256(data: &[u8]) -> (r: Vec<u8>)
    ensures
        r@ == sha256_digest(data@),
        r@.len() == 32,
{
    sha2::Sha256::digest(data).to_vec()
}

/// `sha2::Sha512::digest`. Trusted: the result is `sha512_digest` of the
/// input, 64 bytes long.
#[verifier::external_body]
pub(crate) fn sha512(data: &[u8]) -> (r: Vec<u8>)
    ensures
        r@ == sha512_digest(data@),
        r@.len() == 64,
{
    sha2::Sha512::digest(data).to_vec()
}

/// `sha3::Sha3_256::digest`. Trusted: the result is `sha3_256_digest` of
/// the input, 32 bytes long.
#[verifier::external_body]
pub(crate) fn sha3_256(data: &[u8]) -> (r: Vec<u8>)
    ensures
        r@ == sha3_256_digest(data@),
        r@.len() == 32,
{
    sha3::Sha3_256::digest(data).to_vec()
}

/// `sha3::Sha3_512::digest`. Trusted: the result is `sha3_512_digest` of
/// the input, 64 bytes long.
#[verifier::external_body]
pub(crate) fn sha3_512(data: &[u8]) -> (r: Vec<u8>)
    ensures
        r@ == sha3_512_digest(data@),
        r@.len() == 64,
{
    sha3::Sha3_512::digest(data).to_vec()
}

/// `blake2::Blake2b512::digest`. Trusted: the result is
/// `blake2b512_digest` of the input, 64 bytes long.
#[verifier::external_body]
pub(crate) fn blake2b512(data: &[u8]) -> (r: Vec<u8>)
    ensures
        r@ == blake2b512_digest(data@),
        r@.len() == 64,
{
    blake2::Blake2b512::digest(data).to_vec()
}

/// `blake2::Blake2s256::digest`. Trusted: the result is
/// `blake2s256_digest` of the input, 32 bytes long.
#[verifier::external_body]
pub(crate) fn blake2s256(data: &[u8]) -> (r: Vec<u8>)
    ensures
        r@ == blake2s256_digest(data@),
        r@.len() == 32,
{
    blake2::Blake2s256::digest(data).to_vec()
}

// ---------------------------------------------------------------- hex

/// The lowercase hexadecimal digit for a value below 16.
pub open spec fn hex_digit(n: int) -> char {
    if n < 10 {
        (48 + n) as char
    } else {
        (87 + n) as char
    }
}

/// Lowercase hexadecimal text of a byte string: two digits per byte,
/// the high nibble first.
pub open spec fn hex_lower(data: Seq<u8>) -> Seq<char> {
    Seq::new(
        2 * data.len(),
        |i: int|
            if i % 2 == 0 {
                hex_digit(data[i / 2] as int / 16)
            } else {
                hex_digit(data[i / 2] as int % 16)
            },
    )
}

/// `hex::encode`. Trusted: the result is the lowercase hexadecimal text of
/// the input.
#[verifier::external_body]
pub(crate) fn hex_encode(data: &[u8]) -> (r: String)
    ensures
        r@ == hex_lower(data@),
{
    hex::encode(data)
}

// ---------------------------------------------------------------- randomness

/// `rand_core::OsRng::fill_bytes` on a fresh buffer of `len` bytes.
/// Trusted: `len` bytes come back; their values are the operating system's
/// random output and are left unstated. Panics, as `OsRng` does, when the
/// system source fails.
#[verifier::external_body]
pub(crate) fn random_bytes(len: usize) -> (r: Vec<u8>)
    ensures
        r@.len() == len,
{
    let mut buf = vec![0u8; len];
    rand_core::OsRng.fill_bytes(&mut buf);
    buf
}

// ---------------------------------------------------------------- PBKDF2

/// The PBKDF2-HMAC-SHA256 key of `out_len` bytes derived from a password
/// and salt in `rounds` rounds.
pub uninterp spec fn pbkdf2_sha256_key(
    password: Seq<u8>,
    salt: Seq<u8>,
    rounds: u32,
    out_len: nat,
) -> Seq<u8>;

/// `pbkdf2::pbkdf2_hmac::<sha2::Sha256>` into a fresh buffer of `out_len`
/// bytes. Trusted: the buffer then holds `pbkdf2_sha256_key` of the
/// arguments. (The crate runs a round count of 0 as 1 round; the name covers
/// that case as it covers the others.)
#[verifier::external_body]
pub(crate) fn pbkdf2_hmac_sha256(password: &[u8], salt: &[u8], rounds: u32, out_len: usize) -> (r: Vec<u8>)
    ensures
        r@ == pbkdf2_sha256_key(password@, salt@, rounds, out_len as nat),
        r@.len() == out_len,
{
    let mut out = vec![0u8; out_len];
    pbkdf2::pbkdf2_hmac::<sha2::Sha256>(password, salt, rounds, &mut out);
    out
}

// ---------------------------------------------------------------- scrypt

/// The scrypt key of `out_len` bytes for cost `2^log_n`, block size `r` and
/// parallelism `p`.
pub uninterp spec fn scrypt_key(
    password: Seq<u8>,
    salt: Seq<u8>,
    log_n: u8,
    r: u32,
    p: u32,
    out_len: nat,
) -> Seq<u8>;

/// The conditions under which `scrypt::Params::new` accepts its arguments.
pub open spec fn scrypt_params_accepted(log_n: u8, r: u32, p: u32, len: usize) -> bool {
    &&& r > 0
    &&& p > 0
    &&& log_n < usize::BITS
    &&& 10 <= len <= 64
    &&& r * 128 <= usize::MAX
    &&& r * 128 * pow2(log_n as nat) <= usize::MAX
    &&& r * 128 * p <= usize::MAX
    &&& log_n < r * 16
    &&& r * p < 0x4000_0000
}

/// The conditions under which `scrypt::scrypt` accepts an output length.
pub open spec fn scrypt_output_accepted(out_len: usize) -> bool {
    out_len > 0 && out_len / 32 <= 0xffff_ffff
}

/// Why a scrypt derivation was refused.
pub(crate) enum ScryptFailure {
    Params(scrypt::errors::InvalidParams),
    Output(scrypt::errors::InvalidOutputLen),
}

/// `scrypt::Params::new(log_n, r, p, params_len)` followed by
/// `scrypt::scrypt` into a fresh buffer of `out_len` bytes. Trusted: the
/// parameters are refused exactly when `scrypt_params_accepted` fails, the
/// output length exactly when `scrypt_output_accepted` fails, and otherwise
/// the buffer holds `scrypt_key` of the arguments.
#[verifier::external_body]
pub(crate) fn scrypt_derive(
    password: &[u8],
    salt: &[u8],
    log_n: u8,
    r: u32,
    p: u32,
    params_len: usize,
    out_len: usize,
) -> (res: Result<Vec<u8>, ScryptFailure>)
    ensures
        res is Ok <==> (scrypt_params_accepted(log_n, r, p, params_len) && scrypt_output_accepted(out_len)),
        (res matches Err(e) && e is Params) <==> !scrypt_params_accepted(log_n, r, p, params_len),
        res matches Ok(k) ==> k@ == scrypt_key(password@, salt@, log_n, r, p, out_len as nat),
        res matches Ok(k) ==> k@.len() == out_len,
{
    let params = scrypt::Params::new(log_n, r, p, params_len).map_err(ScryptFailure::Params)?;
    let mut out = vec![0u8; out_len];
    scrypt::scrypt(password, salt, &params, &mut out).map_err(ScryptFailure::Output)?;
    Ok(out)
}

// ---------------------------------------------------------------- bcrypt

/// The decimal digit character for a value below 10.
pub open spec fn decimal_digit(n: int) -> char {
    (48 + n) as char
}

/// A character of the bcrypt Base64 alphabet (`./A-Za-z0-9`).
pub open spec fn is_bcrypt_b64(c: char) -> bool {
    c == '.' || c == '/' || ('A' <= c <= 'Z') || ('a' <= c <= 'z') || ('0' <= c <= '9')
}

/// The shape of a bcrypt hash with the given cost:
/// `$2b$`, the cost in two digits, `$`, then 22 salt and 31 hash characters.
pub open spec fn is_bcrypt_hash(s: Seq<char>, cost: u32) -> bool {
    &&& s.len() == 60
    &&& s[0] == '$' && s[1] == '2' && s[2] == 'b' && s[3] == '$'
    &&& s[4] == decimal_digit(cost as int / 10)
    &&& s[5] == decimal_digit(cost as int % 10)
    &&& s[6] == '$'
    &&& forall|i: int| 7 <= i < 60 ==> is_bcrypt_b64(#[trigger] s[i])
}

/// The bcrypt hash string (version `2b`) of a password with a cost and a
/// 16-byte salt.
pub uninterp spec fn bcrypt_record(password: Seq<u8>, cost: u32, salt: Seq<u8>) -> Seq<char>;

/// `bcrypt::hash_with_salt(password, cost, salt)` written out with
/// `format_for_version(Version::TwoB)`, which is what `bcrypt::hash` does
/// with a salt it draws itself. Trusted: the crate refuses exactly the costs
/// outside 4..=31; otherwise the result is `bcrypt_record` of the arguments,
/// of the bcrypt shape with that cost.
#[verifier::external_body]
pub(crate) fn bcrypt_hash_with_salt(password: &[u8], cost: u32, salt: &[u8]) -> (res: Result<
    String,
    bcrypt::BcryptError,
>)
    requires
        salt@.len() == 16,
    ensures
        res is Ok <==> 4 <= cost <= 31,
        res matches Ok(s) ==> s@ == bcrypt_record(password@, cost, salt@),
        res matches Ok(s) ==> is_bcrypt_hash(s@, cost),
{
    let salt: [u8; 16] = salt.try_into().unwrap();
    bcrypt::hash_with_salt(password, cost, salt).map(|p| p.format_for_version(bcrypt::Version::TwoB))
}

/// `bcrypt::DEFAULT_COST`. Trusted: the crate's source sets it to 12.
#[verifier::external_body]
pub(crate) fn bcrypt_default_cost() -> (c: u32)
    ensures
        c == 12,
{
    bcrypt::DEFAULT_COST
}

// ---------------------------------------------------------------- Argon2

/// A character of the standard Base64 alphabet (`A-Za-z0-9+/`).
pub open spec fn is_std_b64(c: char) -> bool {
    c == '+' || c == '/' || ('A' <= c <= 'Z') || ('a' <= c <= 'z') || ('0' <= c <= '9')
}

/// The shape of an Argon2id hash in PHC form with the default parameters:
/// `$argon2id$v=19$m=19456,t=2,p=1$`, the salt, `$`, and 43 Base64
/// characters of the 32-byte output.
pub open spec fn is_argon2id_default_hash(s: Seq<char>) -> bool {
    &&& s.len() >= 31 + 44
    &&& s.subrange(0, 31) == "$argon2id$v=19$m=19456,t=2,p=1$"@
    &&& s[s.len() - 44] == '$'
    &&& forall|i: int| s.len() - 43 <= i < s.len() ==> is_std_b64(#[trigger] s[i])
}

/// The Argon2id hash, in PHC form with the default parameters, of a password
/// with the salt given by its bytes.
pub uninterp spec fn argon2id_phc(password: Seq<u8>, salt: Seq<u8>) -> Seq<char>;

/// `Argon2::default().hash_password(password, &SaltString::encode_b64(salt)?)`,
/// written out with `to_string` (`SaltString::generate` is `encode_b64` of
/// random bytes). Trusted: with a 16-byte salt the hash is refused exactly
/// when the password is longer than `0xFFFF_FFFF` bytes (argon2's
/// `MAX_PWD_LEN`); otherwise it is `argon2id_phc` of the arguments, of the
/// PHC shape with 22 salt characters.
#[verifier::external_body]
pub(crate) fn argon2id_hash(password: &[u8], salt: &[u8]) -> (res: Result<
    String,
    argon2::password_hash::Error,
>)
    requires
        salt@.len() == 16,
    ensures
        res is Ok <==> password@.len() <= 0xFFFF_FFFF,
        res matches Ok(s) ==> s@ == argon2id_phc(password@, salt@),
        res matches Ok(s) ==> is_argon2id_default_hash(s@),
        res matches Ok(s) ==> s@.len() == 31 + 22 + 1 + 43,
{
    let salt = argon2::password_hash::SaltString::encode_b64(salt)?;
    argon2::Argon2::default().hash_password(password, &salt).map(|h| h.to_string())
}

} // verus!
