use hashmaker::phpass::{
    crypt_private, encode64, hash_wordpress_phpass, itoa64_index, phpass_hash_with_salt,
};

/// The six bytes whose phpass encoding is the salt `55D6LjfH`.
const KNOWN_RANDOM: [u8; 6] = [199, 241, 32, 215, 187, 78];

#[test]
fn verify_known_vector() {
    // WordPress PasswordHash(8, true) — fixed salt via crypt_private path
    let setting = "$P$B55D6LjfHDkINU5wF.v2BuuzO0/XPk/";
    let salt = &setting[4..12];
    let count_log2 = itoa64_index(setting.as_bytes()[3]).unwrap() as u32;
    let count = 1u32 << count_log2;
    let hash = crypt_private("test", salt, count);
    let encoded = encode64(&hash, 16);
    assert_eq!(&setting[12..], encoded);
}

#[test]
fn known_random_bytes_encode_to_known_salt() {
    assert_eq!(encode64(&KNOWN_RANDOM, 6), "55D6LjfH");
}

#[test]
fn hash_with_known_salt_matches_wordpress() {
    let r = phpass_hash_with_salt("test", 8, &KNOWN_RANDOM);
    assert_eq!(r, Ok("$P$B55D6LjfHDkINU5wF.v2BuuzO0/XPk/".to_string()));
}

#[test]
fn out_of_range_iteration_log2_falls_back_to_eight() {
    // As WordPress's PasswordHash($n, true): n outside 4..=31 becomes 8,
    // which is 2^13 rounds ('B').
    let eight = phpass_hash_with_salt("pw", 8, &KNOWN_RANDOM).unwrap();
    assert_eq!(&eight[..4], "$P$B");
    for n in [0, 3, 32, 40, u32::MAX] {
        assert_eq!(phpass_hash_with_salt("pw", n, &KNOWN_RANDOM).unwrap(), eight);
    }
    assert_eq!(&hash_wordpress_phpass("pw", 0).unwrap()[..4], "$P$B");
}

#[test]
fn in_range_iteration_log2_is_used() {
    // 4 gives 2^9 rounds ('7'), 5 gives 2^10 ('8').
    let four = phpass_hash_with_salt("pw", 4, &KNOWN_RANDOM).unwrap();
    assert_eq!(&four[..4], "$P$7");
    let five = phpass_hash_with_salt("pw", 5, &KNOWN_RANDOM).unwrap();
    assert_eq!(&five[..4], "$P$8");
    assert_ne!(four[12..], five[12..]);
}

#[test]
fn too_long_password_is_refused() {
    let long = "a".repeat(4097);
    assert_eq!(hash_wordpress_phpass(&long, 8), Err("password too long (max 4096)".to_string()));
    assert_eq!(
        phpass_hash_with_salt(&long, 8, &KNOWN_RANDOM),
        Err("password too long (max 4096)".to_string())
    );
    let limit = "a".repeat(4096);
    assert!(hash_wordpress_phpass(&limit, 4).is_ok());
}

#[test]
fn byte_length_counts_for_the_limit() {
    // 2049 two-byte characters are 4098 bytes.
    let wide = "é".repeat(2049);
    assert!(hash_wordpress_phpass(&wide, 4).is_err());
}

#[test]
fn wordpress_hash_has_default_shape_and_verifies() {
    let h = hash_wordpress_phpass("correct horse", 8).unwrap();
    assert_eq!(h.len(), 34);
    assert_eq!(&h[..4], "$P$B");
    let count_log2 = itoa64_index(h.as_bytes()[3]).unwrap() as u32;
    assert_eq!(count_log2, 13);
    let again = crypt_private("correct horse", &h[4..12], 1u32 << count_log2);
    assert_eq!(encode64(&again, 16), &h[12..]);
    let wrong = crypt_private("wrong horse", &h[4..12], 1u32 << count_log2);
    assert_ne!(encode64(&wrong, 16), &h[12..]);
}

#[test]
fn encode64_groups_of_three() {
    assert_eq!(encode64(&[0], 1), "..");
    assert_eq!(encode64(&[0], 0), "..");
    assert_eq!(encode64(&[1, 0, 0], 3), "/...");
    assert_eq!(encode64(&[255, 255, 255], 3), "zzzz");
    assert_eq!(encode64(&[255, 255, 255, 1], 4), "zzzz/.");
    assert_eq!(encode64(&[255, 255], 1), "z1");
    assert_eq!(encode64(&[0u8; 16], 16).len(), 22);
}

#[test]
fn itoa64_index_positions() {
    assert_eq!(itoa64_index(b'.'), Some(0));
    assert_eq!(itoa64_index(b'/'), Some(1));
    assert_eq!(itoa64_index(b'0'), Some(2));
    assert_eq!(itoa64_index(b'9'), Some(11));
    assert_eq!(itoa64_index(b'A'), Some(12));
    assert_eq!(itoa64_index(b'B'), Some(13));
    assert_eq!(itoa64_index(b'Z'), Some(37));
    assert_eq!(itoa64_index(b'a'), Some(38));
    assert_eq!(itoa64_index(b'z'), Some(63));
    assert_eq!(itoa64_index(b'$'), None);
    assert_eq!(itoa64_index(b'-'), None);
    assert_eq!(itoa64_index(b'{'), None);
}

#[test]
fn every_alphabet_character_indexes_back() {
    let alphabet = b"./0123456789ABCDEFGHIJKLMNOPQRSTUVWXYZabcdefghijklmnopqrstuvwxyz";
    for (k, c) in alphabet.iter().enumerate() {
        assert_eq!(itoa64_index(*c), Some(k));
    }
}

#[test]
fn encoded_characters_are_in_the_alphabet() {
    let data: Vec<u8> = (0u8..=255).collect();
    let e = encode64(&data, data.len());
    assert_eq!(e.len(), 256 + 86);
    assert!(e.bytes().all(|b| itoa64_index(b).is_some()));
}
