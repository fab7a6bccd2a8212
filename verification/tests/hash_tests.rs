use hashmaker::algorithm::Algorithm;
use argon2::password_hash::{PasswordHash, PasswordVerifier};
use hashmaker::hash::{
    argon2id_with_salt, bcrypt_with_salt, default_bcrypt_cost, default_pbkdf2_iterations, default_wordpress_log2, hash_password,
    pbkdf2_record, scrypt_record, HashError, HashOptions,
};

fn options() -> HashOptions {
    HashOptions { bcrypt_cost: 4, pbkdf2_iterations: 1000, wordpress_log2: 8 }
}

fn digest(password: &str, a: Algorithm) -> String {
    hash_password(password, a, &options()).ok().unwrap()
}

#[test]
fn defaults() {
    assert_eq!(default_bcrypt_cost(), 12);
    assert_eq!(default_pbkdf2_iterations(), 100_000);
    assert_eq!(default_wordpress_log2(), 8);
    let d = HashOptions::default();
    assert_eq!((d.bcrypt_cost, d.pbkdf2_iterations, d.wordpress_log2), (12, 100_000, 8));
}

#[test]
fn hash_error_keeps_message() {
    assert_eq!(HashError::new("boom".to_string()).message, "boom");
}

#[test]
fn empty_password_is_refused_by_every_algorithm() {
    for a in Algorithm::all() {
        match hash_password("", a, &options()) {
            Ok(_) => panic!("empty password hashed"),
            Err(e) => assert_eq!(e.message, "Password cannot be empty"),
        }
    }
}

#[test]
fn md5_vector() {
    assert_eq!(digest("password", Algorithm::Md5), "5f4dcc3b5aa765d61d8327deb882cf99");
}

#[test]
fn sha1_vector() {
    assert_eq!(digest("abc", Algorithm::Sha1), "a9993e364706816aba3e25717850c26c9cd0d89d");
}

#[test]
fn sha256_vector() {
    assert_eq!(
        digest("abc", Algorithm::Sha256),
        "ba7816bf8f01cfea414140de5dae2223b00361a396177a9cb410ff61f20015ad"
    );
}

#[test]
fn sha512_vector() {
    assert_eq!(
        digest("abc", Algorithm::Sha512),
        "ddaf35a193617abacc417349ae20413112e6fa4e89a97ea20a9eeee64b55d39a2192992a274fc1a836ba3c23a3feebbd454d4423643ce80e2a9ac94fa54ca49f"
    );
}

#[test]
fn sha3_256_vector() {
    assert_eq!(
        digest("abc", Algorithm::Sha3_256),
        "3a985da74fe225b2045c172d6bd390bd855f086e3e9d525b46bfe24511431532"
    );
}

#[test]
fn sha3_512_vector() {
    assert_eq!(
        digest("abc", Algorithm::Sha3_512),
        "b751850b1a57168a5693cd924b6b096e08f621827444f70d884f5d0240d2712e10e116e9192af3c91a7ec57647e3934057340b4cf408d5a56592f8274eec53f0"
    );
}

#[test]
fn blake2b_vector() {
    assert_eq!(
        digest("abc", Algorithm::Blake2b),
        "ba80a53f981c4d0d6a2797b69f12f6e94c212f14685ac4b74b12bb6fdbffa2d17d87c5392aab792dc252d5de4533cc9518d38aa8dbf1925ab92386edd4009923"
    );
}

#[test]
fn blake2s_vector() {
    assert_eq!(
        digest("abc", Algorithm::Blake2s),
        "508c5e8c327c14e2e1a72ba34eeb452f37458b209ed63a294d999b4c86675982"
    );
}

#[test]
fn digest_lengths_follow_output_sizes() {
    let sizes = [
        (Algorithm::Md5, 128),
        (Algorithm::Sha1, 160),
        (Algorithm::Sha256, 256),
        (Algorithm::Sha512, 512),
        (Algorithm::Sha3_256, 256),
        (Algorithm::Sha3_512, 512),
        (Algorithm::Blake2b, 512),
        (Algorithm::Blake2s, 256),
    ];
    for (a, bits) in sizes {
        let h = digest("päss", a);
        assert_eq!(h.len(), bits / 4);
        assert!(h.bytes().all(|b| b.is_ascii_digit() || (b'a'..=b'f').contains(&b)));
    }
}

#[test]
fn digests_are_deterministic() {
    for a in &Algorithm::all()[..8] {
        assert_eq!(digest("same", *a), digest("same", *a));
        assert_ne!(digest("same", *a), digest("other", *a));
    }
}

#[test]
fn bcrypt_shape_and_clamped_cost() {
    let h = hash_password("secret", Algorithm::Bcrypt, &options()).ok().unwrap();
    assert_eq!(h.len(), 60);
    assert_eq!(&h[..7], "$2b$04$");
    let low = HashOptions { bcrypt_cost: 0, pbkdf2_iterations: 1, wordpress_log2: 8 };
    let h0 = hash_password("secret", Algorithm::Bcrypt, &low).ok().unwrap();
    assert_eq!(&h0[..7], "$2b$04$");
    let five = HashOptions { bcrypt_cost: 5, pbkdf2_iterations: 1, wordpress_log2: 8 };
    let h5 = hash_password("secret", Algorithm::Bcrypt, &five).ok().unwrap();
    assert_eq!(&h5[..7], "$2b$05$");
    assert!(h[7..].bytes().all(|b| b == b'.' || b == b'/' || b.is_ascii_alphanumeric()));
    assert!(bcrypt::verify("secret", &h).unwrap());
    assert!(!bcrypt::verify("other", &h).unwrap());
}

#[test]
fn bcrypt_with_fixed_salt() {
    let salt = [7u8; 16];
    let a = bcrypt_with_salt("secret", 4, &salt);
    assert_eq!(a, bcrypt_with_salt("secret", 4, &salt));
    assert_eq!(a, bcrypt_with_salt("secret", 0, &salt));
    assert_ne!(a, bcrypt_with_salt("secreT", 4, &salt));
    assert_ne!(a, bcrypt_with_salt("secret", 4, &[8u8; 16]));
    assert_eq!(&a[..7], "$2b$04$");
    assert_eq!(a.len(), 60);
    assert!(bcrypt::verify("secret", &a).unwrap());
    let parts = bcrypt::hash_with_salt("secret", 4, salt).unwrap();
    assert_eq!(a, parts.format_for_version(bcrypt::Version::TwoB));
}

#[test]
fn argon2id_with_fixed_salt() {
    let salt = [9u8; 16];
    let a = argon2id_with_salt("secret", &salt).ok().unwrap();
    assert_eq!(a, argon2id_with_salt("secret", &salt).ok().unwrap());
    assert_ne!(a, argon2id_with_salt("secreT", &salt).ok().unwrap());
    assert_eq!(a.len(), 97);
    assert!(a.starts_with("$argon2id$v=19$m=19456,t=2,p=1$"));
    let parsed = PasswordHash::new(&a).unwrap();
    assert!(argon2::Argon2::default().verify_password(b"secret", &parsed).is_ok());
    assert!(argon2::Argon2::default().verify_password(b"other", &parsed).is_err());
}

#[test]
fn argon2id_shape() {
    let h = hash_password("secret", Algorithm::Argon2id, &options()).ok().unwrap();
    assert!(h.starts_with("$argon2id$v=19$m=19456,t=2,p=1$"));
    assert_eq!(h.len(), 31 + 22 + 1 + 43);
    assert_eq!(h.as_bytes()[h.len() - 44], b'$');
    let other = hash_password("secret", Algorithm::Argon2id, &options()).ok().unwrap();
    assert_ne!(h, other);
    let parsed = PasswordHash::new(&h).unwrap();
    assert!(argon2::Argon2::default().verify_password(b"secret", &parsed).is_ok());
}

#[test]
fn pbkdf2_record_vectors() {
    assert_eq!(
        pbkdf2_record("password", b"salt", 1),
        "73616c74:120fb6cffcf8b32c43e7225256c4f837a86548c92ccc35480805987cb70be17b"
    );
    assert_eq!(
        pbkdf2_record("password", b"salt", 2),
        "73616c74:ae4d0c95af6b46d32d0adff928f06dd02a303f8ef3c251dfd6e2d85a95474c43"
    );
    // zero rounds run as one
    assert_eq!(pbkdf2_record("password", b"salt", 0), pbkdf2_record("password", b"salt", 1));
}

#[test]
fn pbkdf2_shape() {
    let h = hash_password("secret", Algorithm::Pbkdf2Sha256, &options()).ok().unwrap();
    assert_eq!(h.len(), 97);
    assert_eq!(h.as_bytes()[32], b':');
    let other = hash_password("secret", Algorithm::Pbkdf2Sha256, &options()).ok().unwrap();
    assert_ne!(h[..32], other[..32]);
}

#[test]
fn scrypt_record_vector() {
    assert_eq!(
        scrypt_record("pleaseletmein", b"SodiumChloride"),
        "536f6469756d43686c6f72696465:7023bdcb3afd7348461c06cd81fd38ebfda8fbba904f8e3ea9b543f6545da1f2"
    );
}

#[test]
fn scrypt_shape() {
    let h = hash_password("secret", Algorithm::Scrypt, &options()).ok().unwrap();
    assert_eq!(h.len(), 97);
    assert_eq!(h.as_bytes()[32], b':');
}

#[test]
fn wordpress_through_hash_password() {
    let h = hash_password("secret", Algorithm::Wordpress, &options()).ok().unwrap();
    assert_eq!(h.len(), 34);
    assert_eq!(&h[..4], "$P$B");
    let long = "x".repeat(5000);
    match hash_password(&long, Algorithm::Wordpress, &options()) {
        Ok(_) => panic!("long password hashed"),
        Err(e) => assert_eq!(e.message, "password too long (max 4096)"),
    }
}
