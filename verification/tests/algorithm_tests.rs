use hashmaker::algorithm::Algorithm;

#[test]
fn all_lists_thirteen_in_order() {
    let all = Algorithm::all();
    assert_eq!(all.len(), 13);
    assert_eq!(all[0], Algorithm::Md5);
    assert_eq!(all[8], Algorithm::Bcrypt);
    assert_eq!(all[12], Algorithm::Wordpress);
    for (i, a) in all.iter().enumerate() {
        for b in &all[i + 1..] {
            assert_ne!(a, b);
        }
    }
}

#[test]
fn ids_read_back() {
    for a in Algorithm::all() {
        assert_eq!(Algorithm::from_id(a.id()), Some(a));
        assert_eq!(Algorithm::from_str(a.id()), Some(a));
    }
}

#[test]
fn ids_are_snake_case_names() {
    assert_eq!(Algorithm::Sha3_256.id(), "sha3_256");
    assert_eq!(Algorithm::Pbkdf2Sha256.id(), "pbkdf2_sha256");
    assert_eq!(Algorithm::Argon2id.id(), "argon2id");
    assert_eq!(Algorithm::Wordpress.id(), "wordpress");
}

#[test]
fn from_str_ignores_case() {
    assert_eq!(Algorithm::from_str("SHA256"), Some(Algorithm::Sha256));
    assert_eq!(Algorithm::from_str("Blake2B"), Some(Algorithm::Blake2b));
    assert_eq!(Algorithm::from_str("WordPress"), Some(Algorithm::Wordpress));
    assert_eq!(Algorithm::from_id("SHA256"), None);
}

#[test]
fn unknown_names_are_none() {
    assert_eq!(Algorithm::from_str("sha-256"), None);
    assert_eq!(Algorithm::from_str(""), None);
    assert_eq!(Algorithm::from_str(" md5"), None);
    assert_eq!(Algorithm::from_str("argon2"), None);
}

#[test]
fn labels() {
    assert_eq!(Algorithm::Md5.label(), "MD5");
    assert_eq!(Algorithm::Sha1.label(), "SHA-1");
    assert_eq!(Algorithm::Sha3_512.label(), "SHA3-512");
    assert_eq!(Algorithm::Pbkdf2Sha256.label(), "PBKDF2-SHA256");
    assert_eq!(Algorithm::Wordpress.label(), "WordPress");
}

#[test]
fn categories() {
    let digests = Algorithm::all().iter().filter(|a| a.category() == "digest").count();
    let passwords = Algorithm::all().iter().filter(|a| a.category() == "password").count();
    assert_eq!(digests, 8);
    assert_eq!(passwords, 5);
    assert_eq!(Algorithm::Blake2s.category(), "digest");
    assert_eq!(Algorithm::Scrypt.category(), "password");
}

#[test]
fn descriptions() {
    assert_eq!(Algorithm::Md5.description(), "Legacy 128-bit digest — not secure for passwords");
    assert_eq!(Algorithm::Argon2id.description(), "Modern memory-hard password hash (recommended)");
    assert_eq!(Algorithm::Wordpress.description(), "phpass portable hash ($P$) used by WordPress");
}
