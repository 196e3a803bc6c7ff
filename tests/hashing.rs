use local_search::crawler::FileItem;
use local_search::digest::ContentDigest;
use sha2::Digest;

fn file(path: &str) -> FileItem {
    FileItem { label: path.rsplit('/').next().unwrap().to_string(), path: path.to_string() }
}

fn sha256_hex(text: &str) -> String {
    hex::encode(sha2::Sha256::digest(text.as_bytes()))
}

#[test]
fn read_returns_content_or_path() {
    let f = file("docs/a.txt");
    assert_eq!(f.read(Some("hello".to_string())), "hello");
    assert_eq!(f.read(None), "docs/a.txt");
}

#[test]
fn canonical_joins_path_and_content() {
    let f = file("a.txt");
    assert_eq!(f.canonical(Some("hello".to_string())), "a.txt\n\nhello");
    assert_eq!(f.canonical(None), "a.txt\n\na.txt");
}

#[test]
fn hash_is_sha256_hex_of_canonical_string() {
    let d = file("a.txt").hash(Some("hello".to_string()));
    assert!(!d.is_path_fallback());
    let hex = d.into_hex();
    assert_eq!(hex, sha256_hex("a.txt\n\nhello"));
    assert_eq!(hex.len(), 64);
    assert!(hex.chars().all(|c| c.is_ascii_digit() || ('a'..='f').contains(&c)));
}

#[test]
fn hash_of_empty_canonical_parts_is_exact() {
    // The canonical string of an empty path with empty content is "\n\n".
    let d = file("").hash(Some(String::new()));
    assert_eq!(
        d.into_hex(),
        "75a11da44c802486bc6f65640aa48a730f0f684c5c07a42ba3cd1735eb3fb070"
    );
}

#[test]
fn unreadable_content_falls_back_to_path() {
    let d = file("bin/blob").hash(None);
    assert!(d.is_path_fallback());
    match d {
        ContentDigest::PathFallbackHash(h) => assert_eq!(h, sha256_hex("bin/blob\n\nbin/blob")),
        ContentDigest::ContentHash(_) => panic!("expected a path fallback"),
    }
}

#[test]
fn hash_is_deterministic() {
    let a = file("x/y.rs").hash(Some("fn main() {}".to_string())).into_hex();
    let b = file("x/y.rs").hash(Some("fn main() {}".to_string())).into_hex();
    assert_eq!(a, b);
}

#[test]
fn hash_changes_with_content_or_path() {
    let base = file("x/y.rs").hash(Some("one".to_string())).into_hex();
    let other_content = file("x/y.rs").hash(Some("two".to_string())).into_hex();
    let other_path = file("x/z.rs").hash(Some("one".to_string())).into_hex();
    assert_ne!(base, other_content);
    assert_ne!(base, other_path);
}

#[test]
fn fallback_hashes_of_different_paths_differ() {
    assert_ne!(file("a.bin").hash(None).into_hex(), file("b.bin").hash(None).into_hex());
}

#[test]
fn hashed_pairs_file_with_digest() {
    let f = file("b/c.txt");
    let h = f.hashed(Some("world".to_string()));
    assert_eq!(h.file.path, "b/c.txt");
    assert_eq!(h.file.label, "c.txt");
    assert_eq!(h.hash, sha256_hex("b/c.txt\n\nworld"));
}

#[test]
fn encode_gives_lowercase_hex_per_byte() {
    let d = ContentDigest::encode(&[0x00, 0xab, 0x0f, 0xf0, 0xff], false);
    assert!(!d.is_path_fallback());
    assert_eq!(d.into_hex(), "00ab0ff0ff");
    let f = ContentDigest::encode(&[0x12], true);
    assert!(f.is_path_fallback());
    assert_eq!(f.into_hex(), "12");
    assert_eq!(ContentDigest::encode(&[], false).into_hex(), "");
}
