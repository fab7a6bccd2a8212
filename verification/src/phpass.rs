//! The phpass portable hash (`$P$`) that WordPress stores, compatible with
//! `PasswordHash` of `class-phpass.php`.

use vstd::prelude::*;
use crate::text::{append_bytes, push_char};
use crate::crypto::{md5, md5_digest, random_bytes};
use vstd::slice::slice_to_vec;
use vstd::utf8::encode_utf8;
use vstd::arithmetic::power2::{pow2, lemma2_to64, lemma_pow2_strictly_increases};
use vstd::bits::lemma_u32_shl_is_mul;

verus! {

/// The character at position `k` (below 64) of the phpass alphabet
/// `./0123456789ABCDEFGHIJKLMNOPQRSTUVWXYZabcdefghijklmnopqrstuvwxyz`.
pub open spec fn itoa64(k: int) -> char {
    if k < 12 {
        (46 + k) as char
    } else if k < 38 {
        (53 + k) as char
    } else {
        (59 + k) as char
    }
}

/// The position in the phpass alphabet of the character with code `ch`.
pub open spec fn itoa64_position(ch: u8) -> Option<int> {
    if 46 <= ch <= 57 {
        Some(ch - 46)
    } else if 65 <= ch <= 90 {
        Some(ch - 53)
    } else if 97 <= ch <= 122 {
        Some(ch - 59)
    } else {
        None
    }
}

/// The six-bit group number `k` (counted from the least significant) of `v`.
pub open spec fn sextet(v: int, k: int) -> int {
    if k == 0 {
        v % 64
    } else if k == 1 {
        (v / 64) % 64
    } else if k == 2 {
        (v / 4096) % 64
    } else {
        (v / 262144) % 64
    }
}

/// The little-endian value of a group of one to three bytes.
pub open spec fn group_value(g: Seq<u8>) -> int {
    g[0] as int + (if g.len() > 1 { 256 * g[1] } else { 0int }) + (if g.len() > 2 {
        65536 * g[2]
    } else {
        0int
    })
}

/// The characters for a group of one to three bytes: one more character
/// than bytes, each the alphabet entry of a six-bit group of the value,
/// least significant first.
pub open spec fn group_chars(g: Seq<u8>) -> Seq<char> {
    Seq::new(g.len() + 1, |k: int| itoa64(sextet(group_value(g), k)))
}

/// phpass's base-64 encoding of a byte string, three bytes at a time.
pub open spec fn encode64_bytes(s: Seq<u8>) -> Seq<char>
    decreases s.len(),
{
    if s.len() == 0 {
        seq![]
    } else if s.len() <= 3 {
        group_chars(s)
    } else {
        group_chars(s.take(3)) + encode64_bytes(s.skip(3))
    }
}

/// What `encode64(input, count)` writes: the first `count` bytes encoded,
/// where a count of 0 still encodes the first byte.
pub open spec fn encode64_spec(input: Seq<u8>, count: nat) -> Seq<char> {
    encode64_bytes(input.take(if count == 0 { 1 } else { count as int }))
}

/// Encoding a multiple of three bytes, then more, is encoding the whole.
pub proof fn lemma_encode64_append(a: Seq<u8>, b: Seq<u8>)
    requires
        a.len() % 3 == 0,
    ensures
        encode64_bytes(a + b) == encode64_bytes(a) + encode64_bytes(b),
    decreases a.len(),
{
    if a.len() == 0 {
        assert(a + b =~= b);
        assert(encode64_bytes(a) =~= seq![]);
        assert(seq![] + encode64_bytes(b) =~= encode64_bytes(b));
    } else {
        let ab = a + b;
        assert(ab.take(3) =~= a.take(3));
        assert(ab.skip(3) =~= a.skip(3) + b);
        lemma_encode64_append(a.skip(3), b);
        if a.len() == 3 {
            assert(a.skip(3) =~= seq![]);
            assert(a.take(3) =~= a);
            assert(encode64_bytes(a.skip(3)) =~= seq![]);
            assert(a.skip(3) + b =~= b);
            if b.len() == 0 {
                assert(ab =~= a);
                assert(encode64_bytes(b) =~= seq![]);
                assert(encode64_bytes(a) + encode64_bytes(b) =~= encode64_bytes(a));
            }
        } else {
            assert(encode64_bytes(a) == group_chars(a.take(3)) + encode64_bytes(a.skip(3)));
        }
        assert(encode64_bytes(ab) =~= encode64_bytes(a) + encode64_bytes(b));
    }
}

/// The phpass alphabet character at position `k`.
fn itoa64_char(k: u32) -> (c: char)
    requires
        k < 64,
    ensures
        c == itoa64(k as int),
{
    let b: u8 = if k < 12 {
        (46 + k) as u8
    } else if k < 38 {
        (53 + k) as u8
    } else {
        (59 + k) as u8
    };
    b as char
}

/// The position of a byte in the phpass alphabet, if it belongs to it.
pub fn itoa64_index(ch: u8) -> (r: Option<usize>)
    ensures
        r == (match itoa64_position(ch) {
            Some(k) => Some(k as usize),
            None => None::<usize>,
        }),
        r matches Some(k) ==> k < 64 && itoa64(k as int) == ch as char,
        r is None ==> forall|k: int| 0 <= k < 64 ==> itoa64(k) != ch as char,
{
    if 46 <= ch && ch <= 57 {
        Some((ch - 46) as usize)
    } else if 65 <= ch && ch <= 90 {
        Some((ch - 53) as usize)
    } else if 97 <= ch && ch <= 122 {
        Some((ch - 59) as usize)
    } else {
        None
    }
}

/// Appends the characters for the `m` bytes of `input` from position `i`.
fn encode_group(out: &mut String, input: &[u8], i: usize, m: usize)
    requires
        1 <= m <= 3,
        i + m <= input@.len(),
    ensures
        final(out)@ == old(out)@ + group_chars(input@.subrange(i as int, i + m)),
{
    let g = Ghost(input@.subrange(i as int, i + m));
    let b0: u32 = input[i] as u32;
    let b1: u32 = if m > 1 { input[i + 1] as u32 } else { 0 };
    let b2: u32 = if m > 2 { input[i + 2] as u32 } else { 0 };
    let value: u32 = b0 | (b1 << 8) | (b2 << 16);
    proof {
        assert(value == b0 + 256 * b1 + 65536 * b2
            && (value & 63) == value % 64
            && ((value >> 6) & 63) == (value / 64) % 64
            && ((value >> 12) & 63) == (value / 4096) % 64
            && ((value >> 18) & 63) == (value / 262144) % 64) by (bit_vector)
            requires
                b0 < 256 && b1 < 256 && b2 < 256,
                value == b0 | (b1 << 8) | (b2 << 16);
        assert(group_value(g@) == value as int);
    }
    let ghost start = out@;
    push_char(out, itoa64_char(value & 63));
    push_char(out, itoa64_char((value >> 6) & 63));
    if m > 1 {
        push_char(out, itoa64_char((value >> 12) & 63));
    }
    if m > 2 {
        push_char(out, itoa64_char((value >> 18) & 63));
    }
    assert(out@ =~= start + group_chars(g@));
}

/// phpass's base-64 encoding of the first `count` bytes of `input`, three
/// bytes at a time, each group least significant bits first. A `count` of 0
/// encodes the first byte.
pub fn encode64(input: &[u8], count: usize) -> (out: String)
    requires
        input@.len() >= 1,
        count <= input@.len(),
    ensures
        out@ == encode64_spec(input@, count as nat),
{
    let n: usize = if count == 0 { 1 } else { count };
    let mut out = String::new();
    let mut i: usize = 0;
    assert(input@.take(0) =~= Seq::<u8>::empty());
    while i < n
        invariant
            n <= input@.len(),
            n == (if count == 0 { 1 } else { count }),
            i <= n,
            i % 3 == 0 || i == n,
            out@ == encode64_bytes(input@.take(i as int)),
        decreases n - i,
    {
        let m: usize = if n - i < 3 { n - i } else { 3 };
        encode_group(&mut out, input, i, m);
        proof {
            let head = input@.take(i as int);
            let g = input@.subrange(i as int, i + m);
            assert(input@.take(i + m) =~= head + g);
            lemma_encode64_append(head, g);
            assert(encode64_bytes(g) == group_chars(g));
        }
        i = i + m;
    }
    out
}

/// `rounds` further rounds of phpass stretching from `seed`: each round is the
/// MD5 digest of the previous digest followed by the password.
pub open spec fn stretch(seed: Seq<u8>, password: Seq<u8>, rounds: nat) -> Seq<u8>
    decreases rounds,
{
    if rounds == 0 {
        seed
    } else {
        md5_digest(stretch(seed, password, (rounds - 1) as nat) + password)
    }
}

/// phpass's `crypt_private` core: the MD5 digest of salt then password,
/// stretched `count` times.
pub open spec fn crypt_private_spec(password: Seq<u8>, salt: Seq<u8>, count: nat) -> Seq<u8> {
    stretch(md5_digest(salt + password), password, count)
}

/// The 16-byte phpass digest of `password` with `salt`, after `count`
/// stretching rounds.
pub fn crypt_private(password: &str, salt: &str, count: u32) -> (r: [u8; 16])
    ensures
        r@ == crypt_private_spec(encode_utf8(password@), encode_utf8(salt@), count as nat),
{
    let pw: &[u8] = password.as_bytes();
    let mut first: Vec<u8> = slice_to_vec(salt.as_bytes());
    append_bytes(&mut first, pw);
    let mut hash: [u8; 16] = md5(first.as_slice());
    let mut done: u32 = 0;
    while done < count
        invariant
            done <= count,
            pw@ == encode_utf8(password@),
            hash@ == stretch(md5_digest(encode_utf8(salt@) + pw@), pw@, done as nat),
        decreases count - done,
    {
        let mut buf: Vec<u8> = slice_to_vec(hash.as_slice());
        append_bytes(&mut buf, pw);
        hash = md5(buf.as_slice());
        done = done + 1;
    }
    hash
}

/// The `iteration_count_log2` that phpass uses for a requested one: the
/// request itself when it lies in 4..=31, else WordPress's default of 8.
pub open spec fn phpass_iteration_log2(iteration_count_log2: u32) -> u32 {
    if 4 <= iteration_count_log2 <= 31 {
        iteration_count_log2
    } else {
        8
    }
}

/// The base-2 logarithm of the stretching count for a requested
/// `iteration_count_log2`: the used value plus 5, at most 30.
pub open spec fn phpass_count_log2(iteration_count_log2: u32) -> u32 {
    let l = phpass_iteration_log2(iteration_count_log2);
    if l + 5 < 30 {
        (l + 5) as u32
    } else {
        30
    }
}

/// The phpass portable hash of a password (as UTF-8 bytes) with the
/// requested `iteration_count_log2` and six random bytes: `$P$`, the count
/// character, the eight salt characters that encode the random bytes, and
/// the 22 characters that encode the stretched digest.
pub open spec fn phpass_spec(password: Seq<u8>, iteration_count_log2: u32, random: Seq<u8>) -> Seq<char> {
    let count_log2 = phpass_count_log2(iteration_count_log2);
    let salt = encode64_spec(random, 6);
    let digest = crypt_private_spec(password, encode_utf8(salt), (1u32 << count_log2) as nat);
    "$P$"@ + seq![itoa64(count_log2 as int)] + salt + encode64_spec(digest, 16)
}

/// Whatever count is requested, the stretching runs between 2^9 and 2^30
/// rounds.
pub proof fn lemma_phpass_count_bounds(iteration_count_log2: u32)
    ensures
        9 <= phpass_count_log2(iteration_count_log2) <= 30,
{
}

/// The longest password, in bytes, that the phpass hash accepts.
pub open spec fn phpass_max_password_len() -> nat {
    4096
}

/// The phpass portable hash of `password` with the given salt bytes; a
/// password longer than 4096 bytes is refused.
pub fn phpass_hash_with_salt(password: &str, iteration_count_log2: u32, random: &[u8]) -> (r: Result<
    String,
    String,
>)
    requires
        random@.len() == 6,
    ensures
        r is Err <==> encode_utf8(password@).len() > phpass_max_password_len(),
        r matches Err(e) ==> e@ == "password too long (max 4096)"@,
        r matches Ok(s) ==> s@ == phpass_spec(encode_utf8(password@), iteration_count_log2, random@),
        r matches Ok(s) ==> s@.len() == 34,
        r matches Ok(s) ==> (4 <= iteration_count_log2 <= 31 ==> s@[3] == itoa64(
            if iteration_count_log2 + 5 < 30 { iteration_count_log2 + 5 } else { 30 },
        )),
        r matches Ok(s) ==> (!(4 <= iteration_count_log2 <= 31) ==> s@[3] == 'B'),
        r matches Ok(s) ==> s@.subrange(12, 34) == encode64_spec(
            crypt_private_spec(
                encode_utf8(password@),
                encode_utf8(s@.subrange(4, 12)),
                pow2(
                    if 4 <= iteration_count_log2 <= 31 {
                        if iteration_count_log2 + 5 < 30 { (iteration_count_log2 + 5) as nat } else { 30 }
                    } else {
                        13
                    },
                ),
            ),
            16,
        ),
{
    if password.as_bytes().len() > 4096 {
        return Err("password too long (max 4096)".to_owned());
    }
    let log2: u32 = if iteration_count_log2 < 4 || iteration_count_log2 > 31 {
        8
    } else {
        iteration_count_log2
    };
    let count_log2: u32 = (log2 + 5).min(30);
    let count: u32 = 1u32 << count_log2;
    let mut setting = String::new();
    setting.append("$P$");
    push_char(&mut setting, itoa64_char(count_log2));
    let salt = encode64(random, 6);
    setting.append(salt.as_str());
    let hash: [u8; 16] = crypt_private(password, salt.as_str(), count);
    let tail = encode64(hash.as_slice(), 16);
    setting.append(tail.as_str());
    proof {
        assert(count_log2 == phpass_count_log2(iteration_count_log2));
        assert(setting@ =~= phpass_spec(encode_utf8(password@), iteration_count_log2, random@));
        reveal_strlit("$P$");
        assert(random@.take(6) =~= random@);
        assert(hash@.take(16) =~= hash@);
        lemma_encode64_len(random@);
        lemma_encode64_len(hash@);
        lemma_phpass_setting(encode_utf8(password@), iteration_count_log2, random@);
    }
    Ok(setting)
}

/// A WordPress-compatible phpass portable hash (`$P$...`) of `password`,
/// salted with six bytes from the operating system. `iteration_count_log2`
/// is taken as WordPress's `PasswordHash($n, true)` takes it: a value outside
/// 4..=31 falls back to 8, which gives the count character `B` and 2^13
/// stretching rounds. A password longer than 4096 bytes is refused.
pub fn hash_wordpress_phpass(password: &str, iteration_count_log2: u32) -> (r: Result<String, String>)
    ensures
        r is Err <==> encode_utf8(password@).len() > phpass_max_password_len(),
        r matches Err(e) ==> e@ == "password too long (max 4096)"@,
        r matches Ok(s) ==> exists|random: Seq<u8>|
            random.len() == 6 && s@ == #[trigger] phpass_spec(encode_utf8(password@), iteration_count_log2, random),
        r matches Ok(s) ==> s@.len() == 34,
        r matches Ok(s) ==> (4 <= iteration_count_log2 <= 31 ==> s@[3] == itoa64(
            if iteration_count_log2 + 5 < 30 { iteration_count_log2 + 5 } else { 30 },
        )),
        r matches Ok(s) ==> (!(4 <= iteration_count_log2 <= 31) ==> s@[3] == 'B'),
        r matches Ok(s) ==> s@.subrange(12, 34) == encode64_spec(
            crypt_private_spec(
                encode_utf8(password@),
                encode_utf8(s@.subrange(4, 12)),
                pow2(
                    if 4 <= iteration_count_log2 <= 31 {
                        if iteration_count_log2 + 5 < 30 { (iteration_count_log2 + 5) as nat } else { 30 }
                    } else {
                        13
                    },
                ),
            ),
            16,
        ),
{
    if password.as_bytes().len() > 4096 {
        return Err("password too long (max 4096)".to_owned());
    }
    let random = random_bytes(6);
    let r = phpass_hash_with_salt(password, iteration_count_log2, random.as_slice());
    proof {
        if r is Ok {
            assert(random@.len() == 6 && r->Ok_0@ == phpass_spec(encode_utf8(password@), iteration_count_log2, random@));
            lemma_phpass_setting(encode_utf8(password@), iteration_count_log2, random@);
        }
    }
    r
}

/// The setting of a phpass hash follows the requested `iteration_count_log2`
/// n: for n in 4..=31 the count character is the alphabet entry at
/// min(n + 5, 30), otherwise `B` (WordPress's default 8, so 13); the next
/// eight characters encode the salt bytes; and what follows them encodes the
/// digest after 2^count stretching rounds of the password with that salt.
pub proof fn lemma_phpass_setting(password: Seq<u8>, iteration_count_log2: u32, random: Seq<u8>)
    requires
        random.len() == 6,
    ensures
        ({
            let n = iteration_count_log2;
            let c: nat = if 4 <= n <= 31 {
                if n + 5 < 30 { (n + 5) as nat } else { 30 }
            } else {
                13
            };
            let s = phpass_spec(password, n, random);
            &&& s.len() >= 12
            &&& s[3] == itoa64(c as int)
            &&& (!(4 <= n <= 31) ==> s[3] == 'B')
            &&& s.subrange(4, 12) == encode64_spec(random, 6)
            &&& s.subrange(12, s.len() as int) == encode64_spec(
                crypt_private_spec(password, encode_utf8(s.subrange(4, 12)), pow2(c)),
                16,
            )
        }),
{
    reveal_strlit("$P$");
    let n = iteration_count_log2;
    let cl = phpass_count_log2(n);
    let c: nat = if 4 <= n <= 31 {
        if n + 5 < 30 { (n + 5) as nat } else { 30 }
    } else {
        13
    };
    assert(cl as nat == c);
    lemma_pow2_strictly_increases(c, 31);
    lemma2_to64();
    lemma_u32_shl_is_mul(1u32, cl);
    assert((1u32 << cl) as nat == pow2(c));
    let salt = encode64_spec(random, 6);
    assert(random.take(6) =~= random);
    lemma_encode64_len(random);
    let digest = crypt_private_spec(password, encode_utf8(salt), pow2(c));
    let s = phpass_spec(password, n, random);
    let head = "$P$"@ + seq![itoa64(cl as int)];
    assert(head.len() == 4);
    assert(s == head + salt + encode64_spec(digest, 16));
    assert(s[3] == itoa64(cl as int));
    assert(s.subrange(4, 12) =~= salt);
    assert(s.subrange(12, s.len() as int) =~= encode64_spec(digest, 16));
}

/// phpass stretching, stated round by round: no rounds leave the MD5
/// digest of salt then password; each further round is the MD5 digest of the
/// previous digest followed by the password.
pub proof fn lemma_crypt_private_rounds(password: Seq<u8>, salt: Seq<u8>, count: nat)
    ensures
        crypt_private_spec(password, salt, 0) == md5_digest(salt + password),
        crypt_private_spec(password, salt, count + 1) == md5_digest(
            crypt_private_spec(password, salt, count) + password,
        ),
{
}

/// The encoding, character by character: group j covers bytes 3j, 3j+1 and
/// 3j+2 (those that exist), read as the little-endian value v; it gives one
/// character more than it has bytes, character k being the alphabet entry
/// of (v / 64^k) mod 64, at position 4j + k.
pub proof fn lemma_encode64_chars(s: Seq<u8>, j: int, k: int)
    requires
        0 <= j,
        3 * j < s.len(),
        0 <= k,
        k <= (if s.len() - 3 * j >= 3 { 3 } else { s.len() - 3 * j }),
    ensures
        ({
            let b0 = s[3 * j] as int;
            let b1 = if 3 * j + 1 < s.len() { s[3 * j + 1] as int } else { 0 };
            let b2 = if 3 * j + 2 < s.len() { s[3 * j + 2] as int } else { 0 };
            let v = b0 + 256 * b1 + 65536 * b2;
            let d = if k == 0 { 1int } else if k == 1 { 64int } else if k == 2 { 4096int } else { 262144int };
            4 * j + k < encode64_bytes(s).len() && encode64_bytes(s)[4 * j + k] == itoa64((v / d) % 64)
        }),
    decreases j,
{
    lemma_encode64_len(s);
    if j == 0 {
        let g = if s.len() <= 3 { s } else { s.take(3) };
        if s.len() > 3 {
            assert(encode64_bytes(s) == group_chars(g) + encode64_bytes(s.skip(3)));
        }
        assert(encode64_bytes(s)[k] == group_chars(g)[k]);
    } else {
        let t = s.skip(3);
        lemma_encode64_chars(t, j - 1, k);
        lemma_encode64_len(t);
        assert(encode64_bytes(s) == group_chars(s.take(3)) + encode64_bytes(t));
        assert(t[3 * (j - 1)] == s[3 * j]);
        assert(3 * (j - 1) + 1 < t.len() ==> t[3 * (j - 1) + 1] == s[3 * j + 1]);
        assert(3 * (j - 1) + 2 < t.len() ==> t[3 * (j - 1) + 2] == s[3 * j + 2]);
        assert(encode64_bytes(s)[4 * j + k] == encode64_bytes(t)[4 * (j - 1) + k]);
    }
}

/// `itoa64` enumerates the phpass alphabet
/// `./0123456789ABCDEFGHIJKLMNOPQRSTUVWXYZabcdefghijklmnopqrstuvwxyz`.
pub proof fn lemma_itoa64_alphabet()
    ensures
        "./0123456789ABCDEFGHIJKLMNOPQRSTUVWXYZabcdefghijklmnopqrstuvwxyz"@.len() == 64,
        forall|k: int|
            0 <= k < 64 ==> itoa64(k)
                == #[trigger] "./0123456789ABCDEFGHIJKLMNOPQRSTUVWXYZabcdefghijklmnopqrstuvwxyz"@[k],
{
    reveal_strlit("./0123456789ABCDEFGHIJKLMNOPQRSTUVWXYZabcdefghijklmnopqrstuvwxyz");
}

/// Every position of the alphabet is found again by `itoa64_index`.
pub proof fn lemma_itoa64_position(k: int)
    requires
        0 <= k < 64,
    ensures
        itoa64_position(itoa64(k) as u8) == Some(k),
        (itoa64(k) as u8) as char == itoa64(k),
{
}

/// A group of `m` bytes gives `m + 1` characters; the whole encoding of `n`
/// bytes has `n + ceil(n / 3)` characters.
pub proof fn lemma_encode64_len(s: Seq<u8>)
    ensures
        encode64_bytes(s).len() == s.len() + (s.len() + 2) / 3,
    decreases s.len(),
{
    if s.len() > 3 {
        lemma_encode64_len(s.skip(3));
    }
}

/// A character of the phpass alphabet: `.`, `/`, a digit or an ASCII letter.
pub open spec fn is_itoa64_char(c: char) -> bool {
    ('.' <= c <= '9') || ('A' <= c <= 'Z') || ('a' <= c <= 'z')
}

/// Every character of a group's encoding belongs to the phpass alphabet.
proof fn lemma_group_alphabet(g: Seq<u8>)
    ensures
        forall|i: int| 0 <= i < group_chars(g).len() ==> is_itoa64_char(#[trigger] group_chars(g)[i]),
{
    assert forall|i: int| 0 <= i < group_chars(g).len() implies is_itoa64_char(
        #[trigger] group_chars(g)[i],
    ) by {
        let k = sextet(group_value(g), i);
        assert(0 <= k < 64);
        assert(group_chars(g)[i] == itoa64(k));
    }
}

/// Every character of an encoding belongs to the phpass alphabet, so
/// `itoa64_index` finds each of them.
pub proof fn lemma_encode64_alphabet(s: Seq<u8>)
    ensures
        forall|i: int|
            0 <= i < encode64_bytes(s).len() ==> is_itoa64_char(#[trigger] encode64_bytes(s)[i]),
        forall|c: char| is_itoa64_char(c) ==> (#[trigger] itoa64_position(c as u8)) is Some,
    decreases s.len(),
{
    let e = encode64_bytes(s);
    if s.len() == 0 {
        assert(e.len() == 0);
    } else if s.len() <= 3 {
        assert(e == group_chars(s));
        lemma_group_alphabet(s);
    } else {
        let g = s.take(3);
        let rest = encode64_bytes(s.skip(3));
        assert(e == group_chars(g) + rest);
        lemma_group_alphabet(g);
        lemma_encode64_alphabet(s.skip(3));
        assert forall|i: int| 0 <= i < e.len() implies is_itoa64_char(#[trigger] e[i]) by {
            if i < group_chars(g).len() {
                assert(e[i] == group_chars(g)[i]);
            } else {
                assert(e[i] == rest[i - group_chars(g).len()]);
            }
        }
    }
}

/// A stored phpass hash can be checked by recomputing it from its first
/// twelve characters: the fourth decodes to the base-2 logarithm of the
/// stretching count, the next eight are the salt, and stretching the
/// password with that salt and count gives the characters after them.
pub proof fn lemma_phpass_hash_verifies(password: Seq<u8>, iteration_count_log2: u32, random: Seq<u8>)
    requires
        random.len() == 6,
    ensures
        ({
            let s = phpass_spec(password, iteration_count_log2, random);
            let k = itoa64_position(s[3] as u8);
            &&& s.len() >= 12
            &&& s.subrange(0, 3) == "$P$"@
            &&& k == Some(phpass_count_log2(iteration_count_log2) as int)
            &&& s.subrange(12, s.len() as int) == encode64_spec(
                crypt_private_spec(password, encode_utf8(s.subrange(4, 12)), (1u32 << (k->0 as u32)) as nat),
                16,
            )
        }),
{
    reveal_strlit("$P$");
    let cl = phpass_count_log2(iteration_count_log2);
    let salt = encode64_spec(random, 6);
    assert(random.take(6) =~= random);
    lemma_encode64_len(random);
    let digest = crypt_private_spec(password, encode_utf8(salt), (1u32 << cl) as nat);
    let s = phpass_spec(password, iteration_count_log2, random);
    let head = "$P$"@ + seq![itoa64(cl as int)];
    assert(head.len() == 4);
    assert(s == head + salt + encode64_spec(digest, 16));
    assert(s[3] == itoa64(cl as int));
    lemma_itoa64_position(cl as int);
    assert(s.subrange(0, 3) =~= "$P$"@);
    assert(s.subrange(4, 12) =~= salt);
    assert(s.subrange(12, s.len() as int) =~= encode64_spec(digest, 16));
}

} // verus!
