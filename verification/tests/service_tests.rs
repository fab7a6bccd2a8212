use hashmaker::algorithm::Algorithm;
use hashmaker::hash::{HashError, HashOptions};
use hashmaker::service::{
    algorithm_catalog, build_report, hash_request, mime_guess, path_is_under,
    select_algorithms, static_file_name,
};

fn options() -> HashOptions {
    HashOptions { bcrypt_cost: 4, pbkdf2_iterations: 10, wordpress_log2: 4 }
}

fn names(v: &[&str]) -> Vec<String> {
    v.iter().map(|s| s.to_string()).collect()
}

#[test]
fn catalog_lists_every_algorithm() {
    let c = algorithm_catalog();
    assert_eq!(c.len(), 13);
    assert_eq!(c[0].id, "md5");
    assert_eq!(c[0].label, "MD5");
    assert_eq!(c[0].category, "digest");
    assert_eq!(c[0].description, "Legacy 128-bit digest — not secure for passwords");
    assert_eq!(c[10].id, "pbkdf2_sha256");
    assert_eq!(c[12].label, "WordPress");
}

#[test]
fn no_names_selects_everything() {
    assert_eq!(select_algorithms(&Vec::new()), Algorithm::all());
}

#[test]
fn names_select_in_order_and_skip_unknown() {
    let sel = select_algorithms(&names(&["SHA256", "nope", "md5", "md5"]));
    assert_eq!(sel, vec![Algorithm::Sha256, Algorithm::Md5, Algorithm::Md5]);
    assert!(select_algorithms(&names(&["nope"])).is_empty());
}

#[test]
fn request_with_empty_password_is_refused() {
    assert_eq!(
        hash_request("", &names(&["md5"]), &options()).err(),
        Some("Password cannot be empty".to_string())
    );
}

#[test]
fn request_without_known_algorithm_is_refused() {
    assert_eq!(
        hash_request("pw", &names(&["nope", "sha-1"]), &options()).err(),
        Some("No valid algorithms specified".to_string())
    );
}

#[test]
fn request_reports_each_algorithm() {
    let r = hash_request("password", &names(&["md5", "SHA1"]), &options()).ok().unwrap();
    assert_eq!(r.errors.len(), 0);
    assert_eq!(r.results.len(), 2);
    assert_eq!(r.results[0].algorithm, "md5");
    assert_eq!(r.results[0].label, "MD5");
    assert_eq!(r.results[0].category, "digest");
    assert_eq!(r.results[0].hash, "5f4dcc3b5aa765d61d8327deb882cf99");
    assert_eq!(r.results[1].algorithm, "sha1");
    assert_eq!(r.results[1].hash, "5baa61e4c9b93f3f0682250b6cf8331b7ee68fd8");
}

#[test]
fn request_splits_failures_from_results() {
    let long = "p".repeat(5000);
    let r = hash_request(&long, &names(&["wordpress", "md5"]), &options()).ok().unwrap();
    assert_eq!(r.results.len() + r.errors.len(), 2);
    assert_eq!(r.errors.len(), 1);
    assert_eq!(r.errors[0].algorithm, "wordpress");
    assert_eq!(r.errors[0].error, "password too long (max 4096)");
    assert_eq!(r.results[0].algorithm, "md5");
}

#[test]
fn report_keeps_order_of_outcomes() {
    let algos = vec![Algorithm::Sha1, Algorithm::Bcrypt, Algorithm::Md5];
    let outcomes = vec![
        Ok("a".to_string()),
        Err(HashError::new("bad".to_string())),
        Ok("c".to_string()),
    ];
    let r = build_report(&algos, &outcomes);
    assert_eq!(r.results.len(), 2);
    assert_eq!(r.results[0].algorithm, "sha1");
    assert_eq!(r.results[0].hash, "a");
    assert_eq!(r.results[1].algorithm, "md5");
    assert_eq!(r.results[1].hash, "c");
    assert_eq!(r.errors.len(), 1);
    assert_eq!(r.errors[0].algorithm, "bcrypt");
    assert_eq!(r.errors[0].error, "bad");
}

#[test]
fn mime_types_by_extension() {
    assert_eq!(mime_guess("style.css"), "text/css; charset=utf-8");
    assert_eq!(mime_guess("app.min.js"), "application/javascript; charset=utf-8");
    assert_eq!(mime_guess("logo.svg"), "image/svg+xml");
    assert_eq!(mime_guess("a/b.png"), "image/png");
    assert_eq!(mime_guess("favicon.ico"), "image/x-icon");
    assert_eq!(mime_guess("font.woff2"), "font/woff2");
    assert_eq!(mime_guess("index.html"), "text/html; charset=utf-8");
    // a path without a dot is its own extension
    assert_eq!(mime_guess("css"), "text/css; charset=utf-8");
    assert_eq!(mime_guess("x.CSS"), "text/html; charset=utf-8");
    assert_eq!(mime_guess(""), "text/html; charset=utf-8");
    assert_eq!(mime_guess("dir.css/file"), "text/html; charset=utf-8");
}

#[test]
fn static_file_names() {
    assert_eq!(static_file_name("/"), "index.html");
    assert_eq!(static_file_name(""), "index.html");
    assert_eq!(static_file_name("///app.js"), "app.js");
    assert_eq!(static_file_name("/assets/a.css"), "assets/a.css");
    assert_eq!(static_file_name("/index.html"), "index.html");
}

#[test]
fn request_for_sha256_and_argon2id() {
    let r = hash_request("minha-senha", &names(&["sha256", "argon2id"]), &options())
        .ok()
        .unwrap();
    assert_eq!(r.errors.len(), 0);
    assert_eq!(r.results.len(), 2);
    assert_eq!(r.results[0].algorithm, "sha256");
    assert_eq!(r.results[0].label, "SHA-256");
    assert_eq!(r.results[0].category, "digest");
    assert_eq!(r.results[0].hash.len(), 64);
    assert_eq!(r.results[1].algorithm, "argon2id");
    assert_eq!(r.results[1].category, "password");
}

fn comps(v: &[&str]) -> Vec<Vec<u8>> {
    v.iter().map(|s| s.as_bytes().to_vec()).collect()
}

#[test]
fn paths_under_root() {
    let root = comps(&["/", "srv", "static"]);
    assert!(path_is_under(&root, &comps(&["/", "srv", "static", "a.css"])));
    assert!(path_is_under(&root, &comps(&["/", "srv", "static"])));
    assert!(!path_is_under(&root, &comps(&["/", "srv", "staticx", "a.css"])));
    assert!(!path_is_under(&root, &comps(&["/", "srv"])));
    assert!(!path_is_under(&root, &comps(&["/", "etc", "passwd"])));
}
