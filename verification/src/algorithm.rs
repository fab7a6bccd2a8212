//! The hashing algorithms the service offers, with their names and texts.

use vstd::prelude::*;
use crate::text::{ascii_lower_char, ascii_lowercase, lowercase, str_eq, to_lowercase};
use vstd::utf8::is_ascii_chars;

verus! {

/// A hashing algorithm offered by the service.
#[derive(Debug, Clone, Copy, PartialEq, Eq, Structural, Hash)]
pub enum Algorithm {
    Md5,
    Sha1,
    Sha256,
    Sha512,
    Sha3_256,
    Sha3_512,
    Blake2b,
    Blake2s,
    Bcrypt,
    Argon2id,
    Pbkdf2Sha256,
    Scrypt,
    Wordpress,
}

/// Every algorithm, in the order in which the service lists them.
pub open spec fn all_algorithms() -> Seq<Algorithm> {
    seq![
        Algorithm::Md5,
        Algorithm::Sha1,
        Algorithm::Sha256,
        Algorithm::Sha512,
        Algorithm::Sha3_256,
        Algorithm::Sha3_512,
        Algorithm::Blake2b,
        Algorithm::Blake2s,
        Algorithm::Bcrypt,
        Algorithm::Argon2id,
        Algorithm::Pbkdf2Sha256,
        Algorithm::Scrypt,
        Algorithm::Wordpress,
    ]
}

/// The identifier of an algorithm: its variant name in snake case.
pub open spec fn id_of(a: Algorithm) -> Seq<char> {
    match a {
        Algorithm::Md5 => "md5"@,
        Algorithm::Sha1 => "sha1"@,
        Algorithm::Sha256 => "sha256"@,
        Algorithm::Sha512 => "sha512"@,
        Algorithm::Sha3_256 => "sha3_256"@,
        Algorithm::Sha3_512 => "sha3_512"@,
        Algorithm::Blake2b => "blake2b"@,
        Algorithm::Blake2s => "blake2s"@,
        Algorithm::Bcrypt => "bcrypt"@,
        Algorithm::Argon2id => "argon2id"@,
        Algorithm::Pbkdf2Sha256 => "pbkdf2_sha256"@,
        Algorithm::Scrypt => "scrypt"@,
        Algorithm::Wordpress => "wordpress"@,
    }
}

/// The algorithm whose identifier is exactly `s`, if any.
pub open spec fn algorithm_with_id(s: Seq<char>) -> Option<Algorithm> {
    if s == "md5"@ {
        Some(Algorithm::Md5)
    } else if s == "sha1"@ {
        Some(Algorithm::Sha1)
    } else if s == "sha256"@ {
        Some(Algorithm::Sha256)
    } else if s == "sha512"@ {
        Some(Algorithm::Sha512)
    } else if s == "sha3_256"@ {
        Some(Algorithm::Sha3_256)
    } else if s == "sha3_512"@ {
        Some(Algorithm::Sha3_512)
    } else if s == "blake2b"@ {
        Some(Algorithm::Blake2b)
    } else if s == "blake2s"@ {
        Some(Algorithm::Blake2s)
    } else if s == "bcrypt"@ {
        Some(Algorithm::Bcrypt)
    } else if s == "argon2id"@ {
        Some(Algorithm::Argon2id)
    } else if s == "pbkdf2_sha256"@ {
        Some(Algorithm::Pbkdf2Sha256)
    } else if s == "scrypt"@ {
        Some(Algorithm::Scrypt)
    } else if s == "wordpress"@ {
        Some(Algorithm::Wordpress)
    } else {
        None
    }
}


/// The display label of an algorithm.
pub open spec fn label_of(a: Algorithm) -> Seq<char> {
    match a {
        Algorithm::Md5 => "MD5"@,
        Algorithm::Sha1 => "SHA-1"@,
        Algorithm::Sha256 => "SHA-256"@,
        Algorithm::Sha512 => "SHA-512"@,
        Algorithm::Sha3_256 => "SHA3-256"@,
        Algorithm::Sha3_512 => "SHA3-512"@,
        Algorithm::Blake2b => "BLAKE2b"@,
        Algorithm::Blake2s => "BLAKE2s"@,
        Algorithm::Bcrypt => "bcrypt"@,
        Algorithm::Argon2id => "Argon2id"@,
        Algorithm::Pbkdf2Sha256 => "PBKDF2-SHA256"@,
        Algorithm::Scrypt => "scrypt"@,
        Algorithm::Wordpress => "WordPress"@,
    }
}

/// Whether an algorithm is a plain digest (as opposed to a password hash).
pub open spec fn is_digest(a: Algorithm) -> bool {
    match a {
        Algorithm::Md5 | Algorithm::Sha1 | Algorithm::Sha256 | Algorithm::Sha512
        | Algorithm::Sha3_256 | Algorithm::Sha3_512 | Algorithm::Blake2b
        | Algorithm::Blake2s => true,
        _ => false,
    }
}

/// The category of an algorithm: `"digest"` or `"password"`.
pub open spec fn category_of(a: Algorithm) -> Seq<char> {
    if is_digest(a) {
        "digest"@
    } else {
        "password"@
    }
}

/// The one-line description of an algorithm.
pub open spec fn description_of(a: Algorithm) -> Seq<char> {
    match a {
        Algorithm::Md5 => "Legacy 128-bit digest \u{2014} not secure for passwords"@,
        Algorithm::Sha1 => "160-bit digest \u{2014} deprecated for security use"@,
        Algorithm::Sha256 => "256-bit SHA-2 digest"@,
        Algorithm::Sha512 => "512-bit SHA-2 digest"@,
        Algorithm::Sha3_256 => "256-bit SHA-3 digest"@,
        Algorithm::Sha3_512 => "512-bit SHA-3 digest"@,
        Algorithm::Blake2b => "Fast cryptographic hash (512-bit output)"@,
        Algorithm::Blake2s => "Fast cryptographic hash (256-bit output)"@,
        Algorithm::Bcrypt => "Adaptive password hash with salt"@,
        Algorithm::Argon2id => "Modern memory-hard password hash (recommended)"@,
        Algorithm::Pbkdf2Sha256 => "Key derivation with configurable iterations"@,
        Algorithm::Scrypt => "Memory-hard password-based KDF"@,
        Algorithm::Wordpress => "phpass portable hash ($P$) used by WordPress"@,
    }
}

impl Algorithm {
    /// Every algorithm, once each, in the service's order.
    pub fn all() -> (r: Vec<Algorithm>)
        ensures
            r@ == all_algorithms(),
    {
        vec![
            Algorithm::Md5,
            Algorithm::Sha1,
            Algorithm::Sha256,
            Algorithm::Sha512,
            Algorithm::Sha3_256,
            Algorithm::Sha3_512,
            Algorithm::Blake2b,
            Algorithm::Blake2s,
            Algorithm::Bcrypt,
            Algorithm::Argon2id,
            Algorithm::Pbkdf2Sha256,
            Algorithm::Scrypt,
            Algorithm::Wordpress,
        ]
    }

    /// The identifier of the algorithm (`"sha3_256"`, `"pbkdf2_sha256"`, ...).
    pub fn id(&self) -> (r: &'static str)
        ensures
            r@ == id_of(*self),
    {
        match self {
            Algorithm::Md5 => "md5",
            Algorithm::Sha1 => "sha1",
            Algorithm::Sha256 => "sha256",
            Algorithm::Sha512 => "sha512",
            Algorithm::Sha3_256 => "sha3_256",
            Algorithm::Sha3_512 => "sha3_512",
            Algorithm::Blake2b => "blake2b",
            Algorithm::Blake2s => "blake2s",
            Algorithm::Bcrypt => "bcrypt",
            Algorithm::Argon2id => "argon2id",
            Algorithm::Pbkdf2Sha256 => "pbkdf2_sha256",
            Algorithm::Scrypt => "scrypt",
            Algorithm::Wordpress => "wordpress",
        }
    }

    /// The algorithm whose identifier is exactly `id`.
    pub fn from_id(id: &str) -> (r: Option<Algorithm>)
        ensures
            r == algorithm_with_id(id@),
    {
        if str_eq(id, "md5") {
            Some(Algorithm::Md5)
        } else if str_eq(id, "sha1") {
            Some(Algorithm::Sha1)
        } else if str_eq(id, "sha256") {
            Some(Algorithm::Sha256)
        } else if str_eq(id, "sha512") {
            Some(Algorithm::Sha512)
        } else if str_eq(id, "sha3_256") {
            Some(Algorithm::Sha3_256)
        } else if str_eq(id, "sha3_512") {
            Some(Algorithm::Sha3_512)
        } else if str_eq(id, "blake2b") {
            Some(Algorithm::Blake2b)
        } else if str_eq(id, "blake2s") {
            Some(Algorithm::Blake2s)
        } else if str_eq(id, "bcrypt") {
            Some(Algorithm::Bcrypt)
        } else if str_eq(id, "argon2id") {
            Some(Algorithm::Argon2id)
        } else if str_eq(id, "pbkdf2_sha256") {
            Some(Algorithm::Pbkdf2Sha256)
        } else if str_eq(id, "scrypt") {
            Some(Algorithm::Scrypt)
        } else if str_eq(id, "wordpress") {
            Some(Algorithm::Wordpress)
        } else {
            None
        }
    }

    /// The algorithm named `name`, compared without regard to case: `name`
    /// is lowercased first, then matched against the identifiers.
    pub fn from_str(name: &str) -> (r: Option<Algorithm>)
        ensures
            r == algorithm_with_id(lowercase(name@)),
            is_ascii_chars(name@) ==> r == algorithm_with_id(ascii_lowercase(name@)),
    {
        let lower = to_lowercase(name);
        Algorithm::from_id(lower.as_str())
    }

    /// The display label (`"SHA-256"`, `"PBKDF2-SHA256"`, ...).
    pub fn label(&self) -> (r: &'static str)
        ensures
            r@ == label_of(*self),
    {
        match self {
            Algorithm::Md5 => "MD5",
            Algorithm::Sha1 => "SHA-1",
            Algorithm::Sha256 => "SHA-256",
            Algorithm::Sha512 => "SHA-512",
            Algorithm::Sha3_256 => "SHA3-256",
            Algorithm::Sha3_512 => "SHA3-512",
            Algorithm::Blake2b => "BLAKE2b",
            Algorithm::Blake2s => "BLAKE2s",
            Algorithm::Bcrypt => "bcrypt",
            Algorithm::Argon2id => "Argon2id",
            Algorithm::Pbkdf2Sha256 => "PBKDF2-SHA256",
            Algorithm::Scrypt => "scrypt",
            Algorithm::Wordpress => "WordPress",
        }
    }

    /// `"digest"` for the plain digests, `"password"` for the password hashes.
    pub fn category(&self) -> (r: &'static str)
        ensures
            r@ == category_of(*self),
    {
        match self {
            Algorithm::Md5 | Algorithm::Sha1 | Algorithm::Sha256 | Algorithm::Sha512
            | Algorithm::Sha3_256 | Algorithm::Sha3_512 | Algorithm::Blake2b
            | Algorithm::Blake2s => "digest",
            Algorithm::Bcrypt | Algorithm::Argon2id | Algorithm::Pbkdf2Sha256
            | Algorithm::Scrypt | Algorithm::Wordpress => "password",
        }
    }

    /// A one-line description of the algorithm.
    pub fn description(&self) -> (r: &'static str)
        ensures
            r@ == description_of(*self),
    {
        match self {
            Algorithm::Md5 => "Legacy 128-bit digest \u{2014} not secure for passwords",
            Algorithm::Sha1 => "160-bit digest \u{2014} deprecated for security use",
            Algorithm::Sha256 => "256-bit SHA-2 digest",
            Algorithm::Sha512 => "512-bit SHA-2 digest",
            Algorithm::Sha3_256 => "256-bit SHA-3 digest",
            Algorithm::Sha3_512 => "512-bit SHA-3 digest",
            Algorithm::Blake2b => "Fast cryptographic hash (512-bit output)",
            Algorithm::Blake2s => "Fast cryptographic hash (256-bit output)",
            Algorithm::Bcrypt => "Adaptive password hash with salt",
            Algorithm::Argon2id => "Modern memory-hard password hash (recommended)",
            Algorithm::Pbkdf2Sha256 => "Key derivation with configurable iterations",
            Algorithm::Scrypt => "Memory-hard password-based KDF",
            Algorithm::Wordpress => "phpass portable hash ($P$) used by WordPress",
        }
    }
}

/// Every algorithm occurs in `Algorithm::all()`, and none twice.
pub proof fn lemma_all_lists_each_once(a: Algorithm)
    ensures
        all_algorithms().contains(a),
        all_algorithms().no_duplicates(),
        all_algorithms().len() == 13,
{
    let s = all_algorithms();
    assert(s[0] == Algorithm::Md5);
    assert(s[1] == Algorithm::Sha1);
    assert(s[2] == Algorithm::Sha256);
    assert(s[3] == Algorithm::Sha512);
    assert(s[4] == Algorithm::Sha3_256);
    assert(s[5] == Algorithm::Sha3_512);
    assert(s[6] == Algorithm::Blake2b);
    assert(s[7] == Algorithm::Blake2s);
    assert(s[8] == Algorithm::Bcrypt);
    assert(s[9] == Algorithm::Argon2id);
    assert(s[10] == Algorithm::Pbkdf2Sha256);
    assert(s[11] == Algorithm::Scrypt);
    assert(s[12] == Algorithm::Wordpress);
}

/// A name reduced for comparison: ASCII letters lowered, `-` and `_`
/// dropped.
pub open spec fn squashed(s: Seq<char>) -> Seq<char>
    decreases s.len(),
{
    if s.len() == 0 {
        Seq::empty()
    } else {
        let rest = squashed(s.drop_first());
        if s[0] == '-' || s[0] == '_' {
            rest
        } else {
            seq![ascii_lower_char(s[0])] + rest
        }
    }
}

proof fn lemma_squashed_md5()
    ensures
        squashed("MD5"@) == squashed("md5"@),
{
    reveal_with_fuel(squashed, 4);
    reveal_strlit("MD5");
    reveal_strlit("md5");
    assert(squashed("MD5"@) =~= seq!['m', 'd', '5']);
    assert(squashed("md5"@) =~= seq!['m', 'd', '5']);
}

proof fn lemma_squashed_sha1()
    ensures
        squashed("SHA-1"@) == squashed("sha1"@),
{
    reveal_with_fuel(squashed, 6);
    reveal_strlit("SHA-1");
    reveal_strlit("sha1");
    assert(squashed("SHA-1"@) =~= seq!['s', 'h', 'a', '1']);
    assert(squashed("sha1"@) =~= seq!['s', 'h', 'a', '1']);
}

proof fn lemma_squashed_sha256()
    ensures
        squashed("SHA-256"@) == squashed("sha256"@),
{
    reveal_with_fuel(squashed, 8);
    reveal_strlit("SHA-256");
    reveal_strlit("sha256");
    assert(squashed("SHA-256"@) =~= seq!['s', 'h', 'a', '2', '5', '6']);
    assert(squashed("sha256"@) =~= seq!['s', 'h', 'a', '2', '5', '6']);
}

proof fn lemma_squashed_sha512()
    ensures
        squashed("SHA-512"@) == squashed("sha512"@),
{
    reveal_with_fuel(squashed, 8);
    reveal_strlit("SHA-512");
    reveal_strlit("sha512");
    assert(squashed("SHA-512"@) =~= seq!['s', 'h', 'a', '5', '1', '2']);
    assert(squashed("sha512"@) =~= seq!['s', 'h', 'a', '5', '1', '2']);
}

proof fn lemma_squashed_sha3_256()
    ensures
        squashed("SHA3-256"@) == squashed("sha3_256"@),
{
    reveal_with_fuel(squashed, 9);
    reveal_strlit("SHA3-256");
    reveal_strlit("sha3_256");
    assert(squashed("SHA3-256"@) =~= seq!['s', 'h', 'a', '3', '2', '5', '6']);
    assert(squashed("sha3_256"@) =~= seq!['s', 'h', 'a', '3', '2', '5', '6']);
}

proof fn lemma_squashed_sha3_512()
    ensures
        squashed("SHA3-512"@) == squashed("sha3_512"@),
{
    reveal_with_fuel(squashed, 9);
    reveal_strlit("SHA3-512");
    reveal_strlit("sha3_512");
    assert(squashed("SHA3-512"@) =~= seq!['s', 'h', 'a', '3', '5', '1', '2']);
    assert(squashed("sha3_512"@) =~= seq!['s', 'h', 'a', '3', '5', '1', '2']);
}

proof fn lemma_squashed_blake2b()
    ensures
        squashed("BLAKE2b"@) == squashed("blake2b"@),
{
    reveal_with_fuel(squashed, 8);
    reveal_strlit("BLAKE2b");
    reveal_strlit("blake2b");
    assert(squashed("BLAKE2b"@) =~= seq!['b', 'l', 'a', 'k', 'e', '2', 'b']);
    assert(squashed("blake2b"@) =~= seq!['b', 'l', 'a', 'k', 'e', '2', 'b']);
}

proof fn lemma_squashed_blake2s()
    ensures
        squashed("BLAKE2s"@) == squashed("blake2s"@),
{
    reveal_with_fuel(squashed, 8);
    reveal_strlit("BLAKE2s");
    reveal_strlit("blake2s");
    assert(squashed("BLAKE2s"@) =~= seq!['b', 'l', 'a', 'k', 'e', '2', 's']);
    assert(squashed("blake2s"@) =~= seq!['b', 'l', 'a', 'k', 'e', '2', 's']);
}

proof fn lemma_squashed_bcrypt()
    ensures
        squashed("bcrypt"@) == squashed("bcrypt"@),
{
    reveal_with_fuel(squashed, 7);
    reveal_strlit("bcrypt");
    reveal_strlit("bcrypt");
    assert(squashed("bcrypt"@) =~= seq!['b', 'c', 'r', 'y', 'p', 't']);
    assert(squashed("bcrypt"@) =~= seq!['b', 'c', 'r', 'y', 'p', 't']);
}

proof fn lemma_squashed_argon2id()
    ensures
        squashed("Argon2id"@) == squashed("argon2id"@),
{
    reveal_with_fuel(squashed, 9);
    reveal_strlit("Argon2id");
    reveal_strlit("argon2id");
    assert(squashed("Argon2id"@) =~= seq!['a', 'r', 'g', 'o', 'n', '2', 'i', 'd']);
    assert(squashed("argon2id"@) =~= seq!['a', 'r', 'g', 'o', 'n', '2', 'i', 'd']);
}

proof fn lemma_squashed_pbkdf2sha256()
    ensures
        squashed("PBKDF2-SHA256"@) == squashed("pbkdf2_sha256"@),
{
    reveal_with_fuel(squashed, 14);
    reveal_strlit("PBKDF2-SHA256");
    reveal_strlit("pbkdf2_sha256");
    assert(squashed("PBKDF2-SHA256"@) =~= seq!['p', 'b', 'k', 'd', 'f', '2', 's', 'h', 'a', '2', '5', '6']);
    assert(squashed("pbkdf2_sha256"@) =~= seq!['p', 'b', 'k', 'd', 'f', '2', 's', 'h', 'a', '2', '5', '6']);
}

proof fn lemma_squashed_scrypt()
    ensures
        squashed("scrypt"@) == squashed("scrypt"@),
{
    reveal_with_fuel(squashed, 7);
    reveal_strlit("scrypt");
    reveal_strlit("scrypt");
    assert(squashed("scrypt"@) =~= seq!['s', 'c', 'r', 'y', 'p', 't']);
    assert(squashed("scrypt"@) =~= seq!['s', 'c', 'r', 'y', 'p', 't']);
}

proof fn lemma_squashed_wordpress()
    ensures
        squashed("WordPress"@) == squashed("wordpress"@),
{
    reveal_with_fuel(squashed, 10);
    reveal_strlit("WordPress");
    reveal_strlit("wordpress");
    assert(squashed("WordPress"@) =~= seq!['w', 'o', 'r', 'd', 'p', 'r', 'e', 's', 's']);
    assert(squashed("wordpress"@) =~= seq!['w', 'o', 'r', 'd', 'p', 'r', 'e', 's', 's']);
}

/// Each algorithm's label names that algorithm: reduced the same way (case
/// and separators aside), label and identifier are the same text.
pub proof fn lemma_label_matches_id(a: Algorithm)
    ensures
        squashed(label_of(a)) == squashed(id_of(a)),
{
    match a {
        Algorithm::Md5 => lemma_squashed_md5(),
        Algorithm::Sha1 => lemma_squashed_sha1(),
        Algorithm::Sha256 => lemma_squashed_sha256(),
        Algorithm::Sha512 => lemma_squashed_sha512(),
        Algorithm::Sha3_256 => lemma_squashed_sha3_256(),
        Algorithm::Sha3_512 => lemma_squashed_sha3_512(),
        Algorithm::Blake2b => lemma_squashed_blake2b(),
        Algorithm::Blake2s => lemma_squashed_blake2s(),
        Algorithm::Bcrypt => lemma_squashed_bcrypt(),
        Algorithm::Argon2id => lemma_squashed_argon2id(),
        Algorithm::Pbkdf2Sha256 => lemma_squashed_pbkdf2sha256(),
        Algorithm::Scrypt => lemma_squashed_scrypt(),
        Algorithm::Wordpress => lemma_squashed_wordpress(),
    }
}

/// The eight plain digests (MD5, SHA-1, SHA-256, SHA-512, SHA3-256,
/// SHA3-512, BLAKE2b, BLAKE2s) are in the category `digest`; bcrypt,
/// Argon2id, PBKDF2-SHA256, scrypt and WordPress are in `password`.
pub proof fn lemma_categories(a: Algorithm)
    ensures
        (a == Algorithm::Md5 || a == Algorithm::Sha1 || a == Algorithm::Sha256 || a
            == Algorithm::Sha512 || a == Algorithm::Sha3_256 || a == Algorithm::Sha3_512 || a
            == Algorithm::Blake2b || a == Algorithm::Blake2s) ==> category_of(a) == "digest"@,
        (a == Algorithm::Bcrypt || a == Algorithm::Argon2id || a == Algorithm::Pbkdf2Sha256 || a
            == Algorithm::Scrypt || a == Algorithm::Wordpress) ==> category_of(a) == "password"@,
{
}

/// Identifiers are lowercase ASCII, so `from_str` reads each of them back
/// (as `from_id` does).
pub proof fn lemma_ids_are_lowercase_ascii(a: Algorithm)
    ensures
        is_ascii_chars(id_of(a)),
        ascii_lowercase(id_of(a)) == id_of(a),
        algorithm_with_id(ascii_lowercase(id_of(a))) == Some(a),
{
    lemma_id_round_trip(a);
    let s = id_of(a);
    match a {
        Algorithm::Md5 => { reveal_strlit("md5"); },
        Algorithm::Sha1 => { reveal_strlit("sha1"); },
        Algorithm::Sha256 => { reveal_strlit("sha256"); },
        Algorithm::Sha512 => { reveal_strlit("sha512"); },
        Algorithm::Sha3_256 => { reveal_strlit("sha3_256"); },
        Algorithm::Sha3_512 => { reveal_strlit("sha3_512"); },
        Algorithm::Blake2b => { reveal_strlit("blake2b"); },
        Algorithm::Blake2s => { reveal_strlit("blake2s"); },
        Algorithm::Bcrypt => { reveal_strlit("bcrypt"); },
        Algorithm::Argon2id => { reveal_strlit("argon2id"); },
        Algorithm::Pbkdf2Sha256 => { reveal_strlit("pbkdf2_sha256"); },
        Algorithm::Scrypt => { reveal_strlit("scrypt"); },
        Algorithm::Wordpress => { reveal_strlit("wordpress"); },
    }
    assert(forall|i: int| 0 <= i < s.len() ==> 'a' <= #[trigger] s[i] <= 'z' || '0' <= s[i] <= '9' || s[i] == '_');
    assert(ascii_lowercase(s) =~= s);
}

/// Reading back an algorithm's identifier gives the algorithm itself.
pub proof fn lemma_id_round_trip(a: Algorithm)
    ensures
        algorithm_with_id(id_of(a)) == Some(a),
{
    reveal_strlit("md5");
    reveal_strlit("sha1");
    reveal_strlit("sha256");
    reveal_strlit("sha512");
    reveal_strlit("sha3_256");
    reveal_strlit("sha3_512");
    reveal_strlit("blake2b");
    reveal_strlit("blake2s");
    reveal_strlit("bcrypt");
    reveal_strlit("argon2id");
    reveal_strlit("pbkdf2_sha256");
    reveal_strlit("scrypt");
    reveal_strlit("wordpress");
    // lengths and distinguishing characters of the identifiers
    assert("md5"@.len() == 3 && "sha1"@.len() == 4 && "wordpress"@.len() == 9);
    assert("pbkdf2_sha256"@.len() == 13);
    assert("sha256"@.len() == 6 && "sha256"@[0] == 's' && "sha256"@[1] == 'h' && "sha256"@[3] == '2');
    assert("sha512"@.len() == 6 && "sha512"@[0] == 's' && "sha512"@[1] == 'h' && "sha512"@[3] == '5');
    assert("bcrypt"@.len() == 6 && "bcrypt"@[0] == 'b');
    assert("scrypt"@.len() == 6 && "scrypt"@[0] == 's' && "scrypt"@[1] == 'c');
    assert("blake2b"@.len() == 7 && "blake2b"@[6] == 'b');
    assert("blake2s"@.len() == 7 && "blake2s"@[6] == 's');
    assert("sha3_256"@.len() == 8 && "sha3_256"@[0] == 's' && "sha3_256"@[5] == '2');
    assert("sha3_512"@.len() == 8 && "sha3_512"@[0] == 's' && "sha3_512"@[5] == '5');
    assert("argon2id"@.len() == 8 && "argon2id"@[0] == 'a');
}

} // verus!
