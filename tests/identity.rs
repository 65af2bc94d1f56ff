use cargo_fetcher_sync::digest::Digest;
use cargo_fetcher_sync::krate::Krate;
use cargo_fetcher_sync::layout::{determine_root, strip_extension, CacheLayout};

fn foo() -> Krate {
    Krate::crates_io("foo".to_string(), "1.0.0".to_string())
}

fn bar() -> Krate {
    Krate::git(
        "bar".to_string(),
        "0.1.0".to_string(),
        "https://example.com/bar.git".to_string(),
        "abcd1234".to_string(),
    )
}

#[test]
fn local_id_of_registry_package() {
    assert_eq!(foo().local_id(), "foo-1.0.0.crate");
    assert!(!foo().is_git());
}

#[test]
fn local_id_of_git_package() {
    assert_eq!(bar().local_id(), "bar-abcd1234");
    assert!(bar().is_git());
}

#[test]
fn digest_of_empty_payload() {
    let d = Digest::from_bytes(b"");
    assert_eq!(
        d.to_hex(),
        "e3b0c44298fc1c149afbf4c8996fb92427ae41e4649b934ca495991b7852b855"
    );
}

#[test]
fn digest_of_abc() {
    let d = Digest::from_bytes(b"abc");
    assert_eq!(
        d.to_hex(),
        "ba7816bf8f01cfea414140de5dae2223b00361a396177a9cb410ff61f20015ad"
    );
}

#[test]
fn digest_is_deterministic() {
    let payload = vec![7u8, 0, 255, 42, 13];
    let a = Digest::from_bytes(&payload);
    let b = Digest::from_bytes(&payload.clone());
    assert!(a.same_as(&b));
    assert_eq!(a.to_hex(), b.to_hex());
    assert_eq!(a.to_hex().len(), 64);
}

#[test]
fn different_payloads_have_different_digests() {
    let a = Digest::from_bytes(b"one");
    let b = Digest::from_bytes(b"two");
    assert!(!a.same_as(&b));
    assert_ne!(a.to_hex(), b.to_hex());
}

#[test]
fn strip_extension_removes_one_extension() {
    assert_eq!(strip_extension("foo-1.0.0.crate"), "foo-1.0.0");
    assert_eq!(strip_extension("a.tar.gz"), "a.tar");
    assert_eq!(strip_extension("noext"), "noext");
    assert_eq!(strip_extension(".hidden"), ".hidden");
    assert_eq!(strip_extension(""), "");
}

#[test]
fn layout_paths() {
    let l = CacheLayout::new("/c".to_string());
    assert_eq!(l.registry_dir(), "/c/registry");
    assert_eq!(l.index_dir(), "/c/registry/index/github.com-1ecc6299db9ec823");
    assert_eq!(l.cache_dir(), "/c/registry/cache/github.com-1ecc6299db9ec823");
    assert_eq!(l.src_dir(), "/c/registry/src/github.com-1ecc6299db9ec823");
    assert_eq!(l.git_db_dir(), "/c/git/db");
    assert_eq!(l.cargo_binary(), "/c/bin/cargo");
}

#[test]
fn layout_with_other_registry() {
    let l = CacheLayout::with_registry("r".to_string(), "mirror-1".to_string());
    assert_eq!(l.cache_dir(), "r/registry/cache/mirror-1");
}

#[test]
fn root_prefers_explicit_then_cargo_home_then_home() {
    let s = |x: &str| Some(x.to_string());
    assert_eq!(determine_root(s("/a"), s("/b"), s("/h")), s("/a"));
    assert_eq!(determine_root(None, s("/b"), s("/h")), s("/b"));
    assert_eq!(determine_root(None, None, s("/h")), s("/h/.cargo"));
    assert_eq!(determine_root(None, None, None), None);
}
