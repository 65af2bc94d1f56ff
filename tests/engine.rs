use cargo_fetcher_sync::backend::{FSBackend, FetchError};
use cargo_fetcher_sync::digest::Digest;
use cargo_fetcher_sync::krate::{Krate, Source};
use cargo_fetcher_sync::layout::CacheLayout;
use cargo_fetcher_sync::store::{FilesystemDB, ReadOutcome, StoreError};
use cargo_fetcher_sync::sync::{
    ids_at, index_destination, index_git_marker, index_krate, missing_krates, place_fetched,
    summarize, Action, Outcome,
};

fn foo() -> Krate {
    Krate::crates_io("foo".to_string(), "1.0.0".to_string())
}

fn bar() -> Krate {
    Krate::git(
        "bar".to_string(),
        "0.1.0".to_string(),
        "https://example.com/bar.git".to_string(),
        "abcd1234".to_string(),
    )
}

fn layout() -> CacheLayout {
    CacheLayout::new("/home/u/.cargo".to_string())
}

#[test]
fn fresh_sync_routes_by_provenance() {
    let krates = vec![foo(), bar()];
    let to_sync = missing_krates(&krates, &Vec::new());
    assert_eq!(to_sync, vec![0, 1]);

    let foo_actions = place_fetched(&layout(), &krates[0], false);
    assert_eq!(foo_actions.len(), 2);
    match &foo_actions[0] {
        Action::WriteRaw { path } => assert_eq!(
            path,
            "/home/u/.cargo/registry/cache/github.com-1ecc6299db9ec823/foo-1.0.0.crate"
        ),
        _ => panic!("expected a raw write"),
    }
    match &foo_actions[1] {
        Action::UnpackGzip { dest } => assert_eq!(
            dest,
            "/home/u/.cargo/registry/src/github.com-1ecc6299db9ec823/foo-1.0.0"
        ),
        _ => panic!("expected a gzip unpack"),
    }

    let bar_actions = place_fetched(&layout(), &krates[1], false);
    assert_eq!(bar_actions.len(), 1);
    match &bar_actions[0] {
        Action::UnpackZstd { dest } => assert_eq!(dest, "/home/u/.cargo/git/db/bar-abcd1234"),
        _ => panic!("expected a zstd unpack"),
    }
    assert!(!bar_actions
        .iter()
        .any(|a| matches!(a, Action::WriteRaw { .. })));
}

#[test]
fn existing_source_dir_is_not_unpacked_again() {
    let actions = place_fetched(&layout(), &foo(), true);
    assert_eq!(actions.len(), 1);
    assert!(matches!(&actions[0], Action::WriteRaw { .. }));
}

#[test]
fn cached_package_is_not_fetched() {
    let krates = vec![foo()];
    let cached = vec!["foo-1.0.0.crate".to_string()];
    assert!(missing_krates(&krates, &cached).is_empty());
}

#[test]
fn second_run_fetches_nothing() {
    let krates = vec![foo(), bar(), Krate::crates_io("baz".to_string(), "2.1.0".to_string())];
    let mut cached = vec!["baz-2.1.0.crate".to_string(), "unrelated".to_string()];
    let first = missing_krates(&krates, &cached);
    assert_eq!(first, vec![0, 1]);
    for id in ids_at(&krates, &first) {
        cached.push(id);
    }
    assert!(missing_krates(&krates, &cached).is_empty());
}

#[test]
fn diff_keeps_locked_order() {
    let krates = vec![bar(), foo()];
    let cached = vec!["bar-abcd1234".to_string()];
    assert_eq!(missing_krates(&krates, &cached), vec![1]);
}

#[test]
fn one_failure_does_not_hide_others() {
    let krates = vec![
        Krate::crates_io("a".to_string(), "1.0.0".to_string()),
        Krate::crates_io("b".to_string(), "1.0.0".to_string()),
        Krate::crates_io("c".to_string(), "1.0.0".to_string()),
    ];
    let to_sync = vec![0, 1, 2];
    let outcomes = vec![
        Outcome::Failed { reason: "not found".to_string() },
        Outcome::Synced,
        Outcome::Synced,
    ];
    let report = summarize(&to_sync, &outcomes);
    assert_eq!(report.synced, vec![1, 2]);
    assert_eq!(report.failed, vec![0]);
    assert_eq!(ids_at(&krates, &report.failed), vec!["a-1.0.0.crate".to_string()]);
}

#[test]
fn index_is_a_git_package() {
    let k = index_krate();
    assert_eq!(k.name, "crates.io-index");
    assert_eq!(k.version, "1.0.0");
    match &k.source {
        Source::Git { url, ident } => {
            assert_eq!(url, "https://github.com/rust-lang/crates.io-index");
            assert_eq!(ident, "1ecc6299db9ec823");
        }
        Source::CratesIo => panic!("expected a git source"),
    }
    assert_eq!(k.local_id(), "crates.io-index-1ecc6299db9ec823");
}

#[test]
fn index_skipped_when_present_or_not_asked() {
    let l = layout();
    assert_eq!(
        index_git_marker(&l),
        "/home/u/.cargo/registry/index/github.com-1ecc6299db9ec823/.git"
    );
    assert_eq!(
        index_destination(&l, true, false),
        Some("/home/u/.cargo/registry/index/github.com-1ecc6299db9ec823".to_string())
    );
    assert_eq!(index_destination(&l, true, true), None);
    assert_eq!(index_destination(&l, false, false), None);
}

#[test]
fn store_round_trip_paths() {
    let db = FilesystemDB::new("/blobs".to_string());
    let payload = b"abc".to_vec();
    let (key, path) = db.insert(&payload);
    assert_eq!(
        path,
        "/blobs/ba7816bf8f01cfea414140de5dae2223b00361a396177a9cb410ff61f20015ad"
    );
    assert_eq!(db.entry_path(&key), path);
    assert!(key.same_as(&Digest::from_bytes(&payload)));
    match FilesystemDB::lookup(ReadOutcome::Read { bytes: payload.clone() }) {
        Ok(Some(b)) => assert_eq!(b, payload),
        _ => panic!("expected the payload"),
    }
}

#[test]
fn lookup_miss_is_absent_not_error() {
    assert!(matches!(FilesystemDB::lookup(ReadOutcome::NotFound), Ok(None)));
    match FilesystemDB::lookup(ReadOutcome::Failed { message: "denied".to_string() }) {
        Err(StoreError::Io { message }) => assert_eq!(message, "denied"),
        _ => panic!("expected an error"),
    }
}

#[test]
fn fs_backend_fetch() {
    let b = FSBackend::new("/store".to_string());
    assert_eq!(b.fetch_path(&foo()), "/store/foo-1.0.0.crate");
    assert_eq!(b.db.root, "/store");
    match FSBackend::fetch(ReadOutcome::Read { bytes: vec![1, 2, 3] }) {
        Ok(v) => assert_eq!(v, vec![1, 2, 3]),
        _ => panic!("expected bytes"),
    }
    assert!(matches!(FSBackend::fetch(ReadOutcome::NotFound), Err(FetchError::NotFound)));
    assert!(matches!(
        FSBackend::fetch(ReadOutcome::Failed { message: "x".to_string() }),
        Err(FetchError::Io { .. })
    ));
}
