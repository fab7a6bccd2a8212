//! Hashing a password with a chosen algorithm and options.

use vstd::prelude::*;
use vstd::utf8::encode_utf8;
use vstd::arithmetic::power2::lemma2_to64;
use crate::algorithm::{Algorithm, is_digest};
use crate::crypto::{
    argon2id_hash, argon2id_phc, bcrypt_default_cost, bcrypt_hash_with_salt, bcrypt_record,
    blake2b512, blake2b512_digest, blake2s256,
    blake2s256_digest, hex_encode, hex_lower, is_argon2id_default_hash,
    is_bcrypt_hash, md5, md5_digest, pbkdf2_hmac_sha256, pbkdf2_sha256_key, random_bytes,
    scrypt_derive, scrypt_key, scrypt_params_accepted, sha1, sha1_digest, sha256, sha256_digest,
    sha3_256, sha3_256_digest, sha3_512, sha3_512_digest, sha512, sha512_digest,
};
use crate::phpass::{hash_wordpress_phpass, phpass_max_password_len, phpass_spec};
use crate::text::{clamp_u32, clamped, push_char};

verus! {

/// Tunable parameters of the password hashes.
#[derive(Debug, Clone, Copy)]
pub struct HashOptions {
    /// bcrypt cost; clamped to 4..=31 when used.
    pub bcrypt_cost: u32,
    /// PBKDF2 iteration count.
    pub pbkdf2_iterations: u32,
    /// phpass `iteration_count_log2`; a value outside 4..=31 falls back to 8.
    pub wordpress_log2: u32,
}

impl Default for HashOptions {
    /// The documented defaults: bcrypt cost 12, 100 000 PBKDF2 iterations,
    /// phpass `iteration_count_log2` 8.
    fn default() -> (r: Self)
        ensures
            r.bcrypt_cost == 12,
            r.pbkdf2_iterations == 100_000,
            r.wordpress_log2 == 8,
    {
        HashOptions {
            bcrypt_cost: default_bcrypt_cost(),
            pbkdf2_iterations: default_pbkdf2_iterations(),
            wordpress_log2: default_wordpress_log2(),
        }
    }
}

/// The bcrypt cost used when a request's options leave it out: bcrypt's
/// default cost.
pub fn default_bcrypt_cost() -> (c: u32)
    ensures
        c == 12,
{
    bcrypt_default_cost()
}

/// The PBKDF2 iteration count used when a request's options leave it out.
pub fn default_pbkdf2_iterations() -> (c: u32)
    ensures
        c == 100_000,
{
    100_000
}

/// The phpass `iteration_count_log2` used when a request's options leave it
/// out (WordPress's own default).
pub fn default_wordpress_log2() -> (c: u32)
    ensures
        c == 8,
{
    8
}

/// Why a password could not be hashed.
pub struct HashError {
    pub message: String,
}

impl HashError {
    /// An error with the given message.
    pub fn new(message: String) -> (e: Self)
        ensures
            e.message@ == message@,
    {
        HashError { message }
    }
}

/// The digest that a digest algorithm computes of some bytes.
pub open spec fn digest_of(algorithm: Algorithm, data: Seq<u8>) -> Seq<u8> {
    match algorithm {
        Algorithm::Md5 => md5_digest(data),
        Algorithm::Sha1 => sha1_digest(data),
        Algorithm::Sha256 => sha256_digest(data),
        Algorithm::Sha512 => sha512_digest(data),
        Algorithm::Sha3_256 => sha3_256_digest(data),
        Algorithm::Sha3_512 => sha3_512_digest(data),
        Algorithm::Blake2b => blake2b512_digest(data),
        Algorithm::Blake2s => blake2s256_digest(data),
        _ => Seq::empty(),
    }
}

/// The size in bytes of the digest an algorithm computes (its advertised
/// output size in bits, divided by eight).
pub open spec fn digest_size(algorithm: Algorithm) -> nat {
    match algorithm {
        Algorithm::Md5 => 16,
        Algorithm::Sha1 => 20,
        Algorithm::Sha256 | Algorithm::Sha3_256 | Algorithm::Blake2s => 32,
        _ => 64,
    }
}

/// The PBKDF2 record of a password: the salt in hex, `:`, and the 32-byte
/// PBKDF2-HMAC-SHA256 key in hex.
pub open spec fn pbkdf2_record_spec(password: Seq<u8>, salt: Seq<u8>, iterations: u32) -> Seq<char> {
    hex_lower(salt) + seq![':'] + hex_lower(pbkdf2_sha256_key(password, salt, iterations, 32))
}

/// The scrypt record of a password: the salt in hex, `:`, and the 32-byte
/// scrypt key (cost 2^14, block size 8, parallelism 1) in hex.
pub open spec fn scrypt_record_spec(password: Seq<u8>, salt: Seq<u8>) -> Seq<char> {
    hex_lower(salt) + seq![':'] + hex_lower(scrypt_key(password, salt, 14, 8, 1, 32))
}

/// The longest password, in bytes, that Argon2 accepts.
pub open spec fn argon2_max_password_len() -> nat {
    0xFFFF_FFFF
}

/// What `hash_password` may give back for a password, an algorithm and the
/// options: exactly the digest in hex for the digests; a string of the
/// algorithm's form, over some salt, for the salted hashes.
pub open spec fn hash_outcome(
    password: Seq<char>,
    algorithm: Algorithm,
    options: HashOptions,
    r: Result<String, HashError>,
) -> bool {
    let pw = encode_utf8(password);
    if password.len() == 0 {
        r matches Err(e) && e.message@ == "Password cannot be empty"@
    } else if is_digest(algorithm) {
        r matches Ok(s) && s@ == hex_lower(digest_of(algorithm, pw)) && s@.len() == 2
            * digest_size(algorithm)
    } else {
        match algorithm {
            Algorithm::Bcrypt => r matches Ok(s) && is_bcrypt_hash(
                s@,
                clamped(options.bcrypt_cost, 4, 31),
            ) && exists|salt: Seq<u8>|
                salt.len() == 16 && s@ == #[trigger] bcrypt_record(
                    pw,
                    clamped(options.bcrypt_cost, 4, 31),
                    salt,
                ),
            Algorithm::Argon2id => {
                &&& (r is Err <==> pw.len() > argon2_max_password_len())
                &&& r matches Ok(s) ==> s@.len() == 97 && is_argon2id_default_hash(s@)
                &&& r matches Ok(s) ==> exists|salt: Seq<u8>|
                    salt.len() == 16 && s@ == #[trigger] argon2id_phc(pw, salt)
            },
            Algorithm::Pbkdf2Sha256 => r matches Ok(s) && s@.len() == 97 && s@[32] == ':' && exists|salt: Seq<u8>|
                salt.len() == 16 && s@ == #[trigger] pbkdf2_record_spec(
                    pw,
                    salt,
                    options.pbkdf2_iterations,
                ),
            Algorithm::Scrypt => r matches Ok(s) && s@.len() == 97 && s@[32] == ':' && exists|salt: Seq<u8>|
                salt.len() == 16 && s@ == #[trigger] scrypt_record_spec(pw, salt),
            _ => {
                &&& (r is Err <==> pw.len() > phpass_max_password_len())
                &&& r matches Err(e) ==> e.message@ == "password too long (max 4096)"@
                &&& r matches Ok(s) ==> s@.len() == 34
                &&& r matches Ok(s) ==> exists|random: Seq<u8>|
                    random.len() == 6 && s@ == #[trigger] phpass_spec(
                        pw,
                        options.wordpress_log2,
                        random,
                    )
            },
        }
    }
}

/// The parts of `a`, `:`, `b`.
proof fn lemma_record_parts(r: Seq<char>, a: Seq<char>, b: Seq<char>)
    requires
        r == a + seq![':'] + b,
    ensures
        r.subrange(0, a.len() as int) == a,
        r.subrange(a.len() as int + 1, r.len() as int) == b,
{
    assert(r.subrange(0, a.len() as int) =~= a);
    assert(r.subrange(a.len() as int + 1, r.len() as int) =~= b);
}

/// Each digest algorithm computes its own digest of all the bytes it is
/// given.
pub proof fn lemma_digest_of_names_each_digest(data: Seq<u8>)
    ensures
        digest_of(Algorithm::Md5, data) == md5_digest(data),
        digest_of(Algorithm::Sha1, data) == sha1_digest(data),
        digest_of(Algorithm::Sha256, data) == sha256_digest(data),
        digest_of(Algorithm::Sha512, data) == sha512_digest(data),
        digest_of(Algorithm::Sha3_256, data) == sha3_256_digest(data),
        digest_of(Algorithm::Sha3_512, data) == sha3_512_digest(data),
        digest_of(Algorithm::Blake2b, data) == blake2b512_digest(data),
        digest_of(Algorithm::Blake2s, data) == blake2s256_digest(data),
{
}

/// A digest of a non-empty password is the hex of that algorithm's digest
/// of the password's full UTF-8 bytes.
pub proof fn lemma_digest_outcomes(
    password: Seq<char>,
    algorithm: Algorithm,
    options: HashOptions,
    r: Result<String, HashError>,
)
    requires
        hash_outcome(password, algorithm, options, r),
        password.len() != 0,
    ensures
        algorithm == Algorithm::Md5 ==> (r matches Ok(s) && s@ == hex_lower(md5_digest(encode_utf8(password)))),
        algorithm == Algorithm::Sha1 ==> (r matches Ok(s) && s@ == hex_lower(sha1_digest(encode_utf8(password)))),
        algorithm == Algorithm::Sha256 ==> (r matches Ok(s) && s@ == hex_lower(sha256_digest(encode_utf8(password)))),
        algorithm == Algorithm::Sha512 ==> (r matches Ok(s) && s@ == hex_lower(sha512_digest(encode_utf8(password)))),
        algorithm == Algorithm::Sha3_256 ==> (r matches Ok(s) && s@ == hex_lower(sha3_256_digest(encode_utf8(password)))),
        algorithm == Algorithm::Sha3_512 ==> (r matches Ok(s) && s@ == hex_lower(sha3_512_digest(encode_utf8(password)))),
        algorithm == Algorithm::Blake2b ==> (r matches Ok(s) && s@ == hex_lower(blake2b512_digest(encode_utf8(password)))),
        algorithm == Algorithm::Blake2s ==> (r matches Ok(s) && s@ == hex_lower(blake2s256_digest(encode_utf8(password)))),
{
}

/// The PBKDF2 and scrypt records of a non-empty password are the hex of 16
/// salt bytes, `:`, and the hex of the 32-byte key derived from the
/// password's full UTF-8 bytes with that salt: for PBKDF2 with exactly the
/// requested iteration count, for scrypt with cost 2^14, block size 8 and
/// parallelism 1.
pub proof fn lemma_salted_record_outcomes(
    password: Seq<char>,
    algorithm: Algorithm,
    options: HashOptions,
    r: Result<String, HashError>,
)
    requires
        hash_outcome(password, algorithm, options, r),
        password.len() != 0,
    ensures
        algorithm == Algorithm::Pbkdf2Sha256 ==> (r matches Ok(s) && exists|salt: Seq<u8>|
            salt.len() == 16 && s@ == hex_lower(salt) + seq![':'] + hex_lower(
                #[trigger] pbkdf2_sha256_key(encode_utf8(password), salt, options.pbkdf2_iterations, 32),
            )),
        algorithm == Algorithm::Scrypt ==> (r matches Ok(s) && exists|salt: Seq<u8>|
            salt.len() == 16 && s@ == hex_lower(salt) + seq![':'] + hex_lower(
                #[trigger] scrypt_key(encode_utf8(password), salt, 14, 8, 1, 32),
            )),
{
    let pw = encode_utf8(password);
    if algorithm == Algorithm::Pbkdf2Sha256 {
        let s = r->Ok_0;
        let salt = choose|salt: Seq<u8>|
            salt.len() == 16 && s@ == #[trigger] pbkdf2_record_spec(pw, salt, options.pbkdf2_iterations);
        assert(pbkdf2_sha256_key(pw, salt, options.pbkdf2_iterations, 32) == pbkdf2_sha256_key(
            pw,
            salt,
            options.pbkdf2_iterations,
            32,
        ));
    }
    if algorithm == Algorithm::Scrypt {
        let s = r->Ok_0;
        let salt = choose|salt: Seq<u8>| salt.len() == 16 && s@ == #[trigger] scrypt_record_spec(pw, salt);
        assert(scrypt_key(pw, salt, 14, 8, 1, 32) == scrypt_key(pw, salt, 14, 8, 1, 32));
    }
}

/// Two strings joined by a separator character.
fn join3(a: String, sep: char, b: String) -> (r: String)
    ensures
        r@ == a@ + seq![sep] + b@,
{
    let mut r = a;
    push_char(&mut r, sep);
    r.append(b.as_str());
    r
}

/// The PBKDF2 record of `password` with the given salt: the salt in hex,
/// `:`, and the 32-byte PBKDF2-HMAC-SHA256 key in hex.
pub fn pbkdf2_record(password: &str, salt: &[u8], iterations: u32) -> (r: String)
    ensures
        r@ == pbkdf2_record_spec(encode_utf8(password@), salt@, iterations),
        r@.subrange(0, (2 * salt@.len()) as int) == hex_lower(salt@),
        r@.subrange(2 * salt@.len() as int + 1, r@.len() as int) == hex_lower(
            pbkdf2_sha256_key(encode_utf8(password@), salt@, iterations, 32),
        ),
        r@.len() == 2 * salt@.len() + 65,
        r@[2 * salt@.len() as int] == ':',
{
    let derived = pbkdf2_hmac_sha256(password.as_bytes(), salt, iterations, 32);
    let r = join3(hex_encode(salt), ':', hex_encode(derived.as_slice()));
    proof {
        lemma_record_parts(r@, hex_lower(salt@), hex_lower(derived@));
    }
    r
}

/// The scrypt record of `password` with the given salt: the salt in hex,
/// `:`, and the 32-byte scrypt key (cost 2^14, block size 8, parallelism 1)
/// in hex.
pub fn scrypt_record(password: &str, salt: &[u8]) -> (r: String)
    ensures
        r@ == scrypt_record_spec(encode_utf8(password@), salt@),
        r@.subrange(0, (2 * salt@.len()) as int) == hex_lower(salt@),
        r@.subrange(2 * salt@.len() as int + 1, r@.len() as int) == hex_lower(
            scrypt_key(encode_utf8(password@), salt@, 14, 8, 1, 32),
        ),
        r@.len() == 2 * salt@.len() + 65,
        r@[2 * salt@.len() as int] == ':',
{
    proof {
        lemma2_to64();
        assert(scrypt_params_accepted(14, 8, 1, 32));
    }
    match scrypt_derive(password.as_bytes(), salt, 14, 8, 1, 32, 32) {
        Ok(derived) => {
            let r = join3(hex_encode(salt), ':', hex_encode(derived.as_slice()));
            proof {
                lemma_record_parts(r@, hex_lower(salt@), hex_lower(derived@));
            }
            r
        },
        Err(_) => {
            proof {
                assert(false);
            }
            String::new()
        },
    }
}

/// The bcrypt hash (version `2b`) of `password` with the cost clamped to
/// 4..=31 and the given 16-byte salt.
pub fn bcrypt_with_salt(password: &str, cost: u32, salt: &[u8]) -> (r: String)
    requires
        salt@.len() == 16,
    ensures
        r@ == bcrypt_record(encode_utf8(password@), clamped(cost, 4, 31), salt@),
        is_bcrypt_hash(r@, clamped(cost, 4, 31)),
{
    let cost = clamp_u32(cost, 4, 31);
    match bcrypt_hash_with_salt(password.as_bytes(), cost, salt) {
        Ok(s) => s,
        Err(_) => {
            proof {
                assert(false);
            }
            String::new()
        },
    }
}

/// The Argon2id hash of `password` with the default parameters and the
/// given 16-byte salt, in PHC form; refused for a password longer than
/// `0xFFFF_FFFF` bytes.
pub fn argon2id_with_salt(password: &str, salt: &[u8]) -> (r: Result<String, HashError>)
    requires
        salt@.len() == 16,
    ensures
        r is Err <==> encode_utf8(password@).len() > argon2_max_password_len(),
        r matches Ok(s) ==> s@ == argon2id_phc(encode_utf8(password@), salt@),
        r matches Ok(s) ==> is_argon2id_default_hash(s@) && s@.len() == 97,
{
    match argon2id_hash(password.as_bytes(), salt) {
        Ok(s) => Ok(s),
        Err(e) => Err(HashError::new(e.to_string())),
    }
}

/// The hex digest of the password's UTF-8 bytes under a digest algorithm.
fn digest_hex(password: &str, algorithm: Algorithm) -> (r: String)
    requires
        is_digest(algorithm),
    ensures
        r@ == hex_lower(digest_of(algorithm, encode_utf8(password@))),
        r@.len() == 2 * digest_size(algorithm),
{
    let data = password.as_bytes();
    match algorithm {
        Algorithm::Md5 => {
            let d = md5(data);
            hex_encode(d.as_slice())
        },
        Algorithm::Sha1 => hex_encode(sha1(data).as_slice()),
        Algorithm::Sha256 => hex_encode(sha256(data).as_slice()),
        Algorithm::Sha512 => hex_encode(sha512(data).as_slice()),
        Algorithm::Sha3_256 => hex_encode(sha3_256(data).as_slice()),
        Algorithm::Sha3_512 => hex_encode(sha3_512(data).as_slice()),
        Algorithm::Blake2b => hex_encode(blake2b512(data).as_slice()),
        _ => hex_encode(blake2s256(data).as_slice()),
    }
}

/// Hashes `password` with `algorithm`. An empty password is refused. The
/// digests give their hex digest of the password's UTF-8 bytes; bcrypt uses
/// the cost clamped to 4..=31 and Argon2id its default parameters, each with
/// 16 random salt bytes;
/// PBKDF2-SHA256 and scrypt give `salt:key` in hex over 16 random salt
/// bytes; WordPress gives the phpass portable hash.
pub fn hash_password(password: &str, algorithm: Algorithm, options: &HashOptions) -> (r: Result<
    String,
    HashError,
>)
    ensures
        hash_outcome(password@, algorithm, *options, r),
{
    if password.is_empty() {
        return Err(HashError::new("Password cannot be empty".to_owned()));
    }
    match algorithm {
        Algorithm::Bcrypt => {
            let salt = random_bytes(16);
            let h = bcrypt_with_salt(password, options.bcrypt_cost, salt.as_slice());
            assert(salt@.len() == 16 && h@ == bcrypt_record(
                encode_utf8(password@),
                clamped(options.bcrypt_cost, 4, 31),
                salt@,
            ));
            Ok(h)
        },
        Algorithm::Argon2id => {
            let salt = random_bytes(16);
            let r = argon2id_with_salt(password, salt.as_slice());
            proof {
                if r is Ok {
                    assert(salt@.len() == 16 && r->Ok_0@ == argon2id_phc(encode_utf8(password@), salt@));
                }
            }
            r
        },
        Algorithm::Pbkdf2Sha256 => {
            let salt = random_bytes(16);
            let r = pbkdf2_record(password, salt.as_slice(), options.pbkdf2_iterations);
            assert(salt@.len() == 16 && r@ == pbkdf2_record_spec(
                encode_utf8(password@),
                salt@,
                options.pbkdf2_iterations,
            ));
            Ok(r)
        },
        Algorithm::Scrypt => {
            let salt = random_bytes(16);
            let r = scrypt_record(password, salt.as_slice());
            assert(salt@.len() == 16 && r@ == scrypt_record_spec(encode_utf8(password@), salt@));
            Ok(r)
        },
        Algorithm::Wordpress => {
            match hash_wordpress_phpass(password, options.wordpress_log2) {
                Ok(s) => Ok(s),
                Err(m) => Err(HashError::new(m)),
            }
        },
        _ => Ok(digest_hex(password, algorithm)),
    }
}

} // verus!
