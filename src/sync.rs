use vstd::prelude::*;
use vstd::string::*;
use crate::krate::{Krate, Source};
use crate::layout::{CacheLayout, join, join_path, strip_ext, strip_extension};
use crate::names::{contains_sorted, names_of, sort_names, sorted};

verus! {

/// The positions among the first `n` packages whose local identifier is not
/// among `names`, in order.
pub open spec fn missing_upto(ks: Seq<Krate>, names: Seq<Seq<char>>, n: int) -> Seq<int>
    decreases n,
{
    if n <= 0 {
        seq![]
    } else if names.contains(ks[n - 1].local_id_spec()) {
        missing_upto(ks, names, n - 1)
    } else {
        missing_upto(ks, names, n - 1).push(n - 1)
    }
}

/// The positions of the packages that are not cached yet, in order.
pub open spec fn missing(ks: Seq<Krate>, names: Seq<Seq<char>>) -> Seq<int> {
    missing_upto(ks, names, ks.len() as int)
}

pub open spec fn positions(v: Seq<usize>) -> Seq<int> {
    v.map_values(|i: usize| i as int)
}

/// The diff step: the positions of the locked packages whose local
/// identifier is not among the entries already in the cache, in order. The
/// entry names are sorted once and each identifier is found by binary search.
pub fn missing_krates(krates: &Vec<Krate>, cached: &Vec<String>) -> (r: Vec<usize>)
    ensures
        positions(r@) == missing(krates@, names_of(cached@)),
{
    let listing = sort_names(cached);
    let mut r: Vec<usize> = Vec::new();
    let mut i: usize = 0;
    while i < krates.len()
        invariant
            i <= krates@.len(),
            sorted(names_of(listing@)),
            forall|n: Seq<char>| names_of(listing@).contains(n) <==> names_of(cached@).contains(n),
            positions(r@) == missing_upto(krates@, names_of(cached@), i as int),
        decreases krates@.len() - i,
    {
        let id = krates[i].local_id();
        if !contains_sorted(&listing, &id) {
            r.push(i);
            assert(positions(r@) =~= missing_upto(krates@, names_of(cached@), i as int).push(i as int));
        }
        i = i + 1;
    }
    r
}

/// Every position listed as missing is a package whose identifier is not
/// cached.
pub proof fn lemma_missing_members(ks: Seq<Krate>, names: Seq<Seq<char>>, n: int)
    requires
        0 <= n <= ks.len(),
    ensures
        forall|j: int| 0 <= j < missing_upto(ks, names, n).len() ==> {
            let p = #[trigger] missing_upto(ks, names, n)[j];
            0 <= p < n && !names.contains(ks[p].local_id_spec())
        },
        forall|p: int| 0 <= p < n && !#[trigger] names.contains(ks[p].local_id_spec())
            ==> missing_upto(ks, names, n).contains(p),
    decreases n,
{
    if n > 0 {
        lemma_missing_members(ks, names, n - 1);
        let prev = missing_upto(ks, names, n - 1);
        if !names.contains(ks[n - 1].local_id_spec()) {
            assert(prev.push(n - 1)[prev.len() as int] == n - 1);
            assert forall|p: int| 0 <= p < n && !#[trigger] names.contains(ks[p].local_id_spec())
                implies missing_upto(ks, names, n).contains(p) by {
                if p < n - 1 {
                    assert(prev.contains(p));
                    let j = choose|j: int| 0 <= j < prev.len() && prev[j] == p;
                    assert(prev.push(n - 1)[j] == p);
                } else {
                    assert(prev.push(n - 1)[prev.len() as int] == p);
                }
            }
        }
    }
}

/// Idempotence of the diff: once every package that was missing has its
/// entry in the cache, and no entry has gone, nothing is missing any more,
/// so a second run fetches nothing.
pub proof fn lemma_sync_idempotent(ks: Seq<Krate>, before: Seq<Seq<char>>, after: Seq<Seq<char>>)
    requires
        forall|n: Seq<char>| before.contains(n) ==> after.contains(n),
        forall|j: int| 0 <= j < missing(ks, before).len()
            ==> after.contains(ks[#[trigger] missing(ks, before)[j]].local_id_spec()),
    ensures
        missing(ks, after).len() == 0,
{
    lemma_missing_members(ks, before, ks.len() as int);
    lemma_missing_members(ks, after, ks.len() as int);
    if missing(ks, after).len() > 0 {
        let p = missing(ks, after)[0];
        assert(!after.contains(ks[p].local_id_spec()));
        assert(!before.contains(ks[p].local_id_spec()));
        assert(missing(ks, before).contains(p));
        let j = choose|j: int| 0 <= j < missing(ks, before).len() && missing(ks, before)[j] == p;
        assert(after.contains(ks[missing(ks, before)[j]].local_id_spec()));
    }
}

/// A package whose entry is already cached is never fetched.
pub proof fn lemma_cached_not_fetched(ks: Seq<Krate>, names: Seq<Seq<char>>, p: int)
    requires
        0 <= p < ks.len(),
        names.contains(ks[p].local_id_spec()),
    ensures
        !missing(ks, names).contains(p),
{
    lemma_missing_members(ks, names, ks.len() as int);
    if missing(ks, names).contains(p) {
        let j = choose|j: int| 0 <= j < missing(ks, names).len() && missing(ks, names)[j] == p;
        assert(!names.contains(ks[missing(ks, names)[j]].local_id_spec()));
    }
}


/// One step of placing a fetched package in the local cache.
pub enum Action {
    /// Write the fetched bytes verbatim to this file.
    WriteRaw { path: String },
    /// Decode the bytes as gzip-framed tar and unpack them into this directory.
    UnpackGzip { dest: String },
    /// Decode the bytes as zstd-framed tar and unpack them into this directory.
    UnpackZstd { dest: String },
}

impl Action {
    pub open spec fn is_raw_write(&self) -> bool {
        self is WriteRaw
    }
}

/// Whether `a` is the step of the given kind (raw write, gzip unpack, zstd
/// unpack) on `path`.
pub open spec fn action_is(a: Action, kind: int, path: Seq<char>) -> bool {
    match a {
        Action::WriteRaw { path: p } => kind == 0 && p@ == path,
        Action::UnpackGzip { dest } => kind == 1 && dest@ == path,
        Action::UnpackZstd { dest } => kind == 2 && dest@ == path,
    }
}

/// The steps for a package fetched from the store: a registry package is
/// written to the packed-archive directory under its local identifier and,
/// unless its source directory already exists, unpacked from gzip-tar into
/// the source directory under the identifier without extension; a git
/// package is unpacked from zstd-tar into the checkout database under its
/// local identifier.
pub open spec fn placement(layout: CacheLayout, k: Krate, src_exists: bool, r: Seq<Action>) -> bool {
    &&& k.source is CratesIo && !src_exists ==> r.len() == 2
        && action_is(r[0], 0, join(layout.cache_dir_spec(), k.local_id_spec()))
        && action_is(r[1], 1, join(layout.src_dir_spec(), strip_ext(k.local_id_spec())))
    &&& k.source is CratesIo && src_exists ==> r.len() == 1
        && action_is(r[0], 0, join(layout.cache_dir_spec(), k.local_id_spec()))
    &&& k.source is Git ==> r.len() == 1
        && action_is(r[0], 2, join(layout.git_db_dir_spec(), k.local_id_spec()))
}

/// The directory a registry package is unpacked into: its local identifier
/// without the archive extension, under the source directory.
pub fn source_dir(layout: &CacheLayout, krate: &Krate) -> (r: String)
    ensures
        r@ == join(layout.src_dir_spec(), strip_ext(krate.local_id_spec())),
{
    let id = krate.local_id();
    let stem = strip_extension(id.as_str());
    join_path(layout.src_dir().as_str(), stem.as_str())
}

/// Routes a fetched package by its provenance. `src_exists` says whether
/// the registry package's source directory is already there.
pub fn place_fetched(layout: &CacheLayout, krate: &Krate, src_exists: bool) -> (r: Vec<Action>)
    ensures
        placement(*layout, *krate, src_exists, r@),
{
    let id = krate.local_id();
    let mut r: Vec<Action> = Vec::new();
    match &krate.source {
        Source::CratesIo => {
            let path = join_path(layout.cache_dir().as_str(), id.as_str());
            r.push(Action::WriteRaw { path });
            if !src_exists {
                let dest = source_dir(layout, krate);
                r.push(Action::UnpackGzip { dest });
            }
        },
        Source::Git { .. } => {
            let dest = join_path(layout.git_db_dir().as_str(), id.as_str());
            r.push(Action::UnpackZstd { dest });
        },
    }
    r
}

/// Routing by provenance: a registry package always gets its raw archive
/// file, and a git package never gets one, whatever is already on disk.
pub proof fn lemma_routing(layout: CacheLayout, k: Krate, src_exists: bool, r: Seq<Action>)
    requires
        placement(layout, k, src_exists, r),
    ensures
        k.source is CratesIo ==> exists|j: int| 0 <= j < r.len() && (#[trigger] r[j]).is_raw_write(),
        k.source is Git ==> forall|j: int| 0 <= j < r.len() ==> !(#[trigger] r[j]).is_raw_write(),
{
    if k.source is CratesIo {
        assert(r[0].is_raw_write());
    }
}

/// What became of one package that was to be synced.
pub enum Outcome {
    Synced,
    Failed { reason: String },
}

/// The aggregate result of a sync: which packages were placed and which
/// failed, by position in the locked list.
pub struct SyncReport {
    pub synced: Vec<usize>,
    pub failed: Vec<usize>,
}

/// The positions among the first `n` of `to_sync` whose outcome is (or is
/// not) a success.
pub open spec fn select_upto(to_sync: Seq<usize>, outcomes: Seq<Outcome>, ok: bool, n: int) -> Seq<usize>
    decreases n,
{
    if n <= 0 {
        seq![]
    } else if (outcomes[n - 1] is Synced) == ok {
        select_upto(to_sync, outcomes, ok, n - 1).push(to_sync[n - 1])
    } else {
        select_upto(to_sync, outcomes, ok, n - 1)
    }
}

/// Gathers the per-package outcomes of a sync run: `outcomes[j]` is what
/// became of package `to_sync[j]`. No outcome affects where another lands.
pub fn summarize(to_sync: &Vec<usize>, outcomes: &Vec<Outcome>) -> (r: SyncReport)
    requires
        to_sync@.len() == outcomes@.len(),
    ensures
        r.synced@ == select_upto(to_sync@, outcomes@, true, to_sync@.len() as int),
        r.failed@ == select_upto(to_sync@, outcomes@, false, to_sync@.len() as int),
{
    let mut synced: Vec<usize> = Vec::new();
    let mut failed: Vec<usize> = Vec::new();
    let mut i: usize = 0;
    while i < to_sync.len()
        invariant
            i <= to_sync@.len(),
            to_sync@.len() == outcomes@.len(),
            synced@ == select_upto(to_sync@, outcomes@, true, i as int),
            failed@ == select_upto(to_sync@, outcomes@, false, i as int),
        decreases to_sync@.len() - i,
    {
        match &outcomes[i] {
            Outcome::Synced => synced.push(to_sync[i]),
            Outcome::Failed { .. } => failed.push(to_sync[i]),
        }
        i = i + 1;
    }
    SyncReport { synced, failed }
}

/// The local identifiers of the packages at `positions`, for a failure
/// summary.
pub fn ids_at(krates: &Vec<Krate>, positions: &Vec<usize>) -> (r: Vec<String>)
    requires
        forall|j: int| 0 <= j < positions@.len() ==> (#[trigger] positions@[j]) < krates@.len(),
    ensures
        r@.len() == positions@.len(),
        forall|j: int| 0 <= j < r@.len() ==> (#[trigger] r@[j])@ == krates@[positions@[j] as int].local_id_spec(),
{
    let mut r: Vec<String> = Vec::new();
    let mut i: usize = 0;
    while i < positions.len()
        invariant
            i <= positions@.len(),
            r@.len() == i,
            forall|j: int| 0 <= j < positions@.len() ==> (#[trigger] positions@[j]) < krates@.len(),
            forall|j: int| 0 <= j < i ==> (#[trigger] r@[j])@ == krates@[positions@[j] as int].local_id_spec(),
        decreases positions@.len() - i,
    {
        let p = positions[i];
        r.push(krates[p].local_id());
        i = i + 1;
    }
    r
}

/// Every package of the first `n` lands in exactly the list its own outcome
/// names.
pub proof fn lemma_select_members(to_sync: Seq<usize>, outcomes: Seq<Outcome>, ok: bool, n: int, j: int)
    requires
        0 <= j < n <= to_sync.len(),
        n <= outcomes.len(),
        (outcomes[j] is Synced) == ok,
    ensures
        select_upto(to_sync, outcomes, ok, n).contains(to_sync[j]),
    decreases n,
{
    if j < n - 1 {
        lemma_select_members(to_sync, outcomes, ok, n - 1, j);
        let prev = select_upto(to_sync, outcomes, ok, n - 1);
        let k = choose|k: int| 0 <= k < prev.len() && prev[k] == to_sync[j];
        if (outcomes[n - 1] is Synced) == ok {
            assert(prev.push(to_sync[n - 1])[k] == to_sync[j]);
        }
    } else {
        let prev = select_upto(to_sync, outcomes, ok, n - 1);
        assert(prev.push(to_sync[j])[prev.len() as int] == to_sync[j]);
    }
}

/// Partial-failure isolation: a package whose own fetch and unpack succeeded
/// is reported synced and one that failed is reported failed, whatever
/// became of the others.
pub proof fn lemma_failure_isolation(to_sync: Seq<usize>, outcomes: Seq<Outcome>, j: int)
    requires
        to_sync.len() == outcomes.len(),
        0 <= j < to_sync.len(),
    ensures
        outcomes[j] is Synced ==> select_upto(to_sync, outcomes, true, to_sync.len() as int).contains(to_sync[j]),
        outcomes[j] is Failed ==> select_upto(to_sync, outcomes, false, to_sync.len() as int).contains(to_sync[j]),
{
    if outcomes[j] is Synced {
        lemma_select_members(to_sync, outcomes, true, to_sync.len() as int, j);
    } else {
        lemma_select_members(to_sync, outcomes, false, to_sync.len() as int, j);
    }
}


pub open spec fn index_name() -> Seq<char> {
    seq!['c', 'r', 'a', 't', 'e', 's', '.', 'i', 'o', '-', 'i', 'n', 'd', 'e', 'x']
}

pub open spec fn index_version() -> Seq<char> {
    seq!['1', '.', '0', '.', '0']
}

/// The canonical URL of the public registry index repository.
pub open spec fn index_url() -> Seq<char> {
    seq!['h', 't', 't', 'p', 's', ':', '/', '/', 'g', 'i', 't', 'h', 'u', 'b', '.', 'c', 'o', 'm', '/',
        'r', 'u', 's', 't', '-', 'l', 'a', 'n', 'g', '/',
        'c', 'r', 'a', 't', 'e', 's', '.', 'i', 'o', '-', 'i', 'n', 'd', 'e', 'x']
}

pub open spec fn index_ident() -> Seq<char> {
    seq!['1', 'e', 'c', 'c', '6', '2', '9', '9', 'd', 'b', '9', 'e', 'c', '8', '2', '3']
}

/// The registry index as a synthetic git package, the key under which its
/// snapshot is stored.
pub fn index_krate() -> (r: Krate)
    ensures
        r.name@ == index_name(),
        r.version@ == index_version(),
        r.source matches Source::Git { url, ident } && url@ == index_url() && ident@ == index_ident(),
{
    proof {
        reveal_strlit("crates.io-index");
        reveal_strlit("1.0.0");
        reveal_strlit("https://github.com/rust-lang/crates.io-index");
        reveal_strlit("1ecc6299db9ec823");
    }
    let name = "crates.io-index".to_owned();
    let version = "1.0.0".to_owned();
    let url = "https://github.com/rust-lang/crates.io-index".to_owned();
    let ident = "1ecc6299db9ec823".to_owned();
    assert(name@ =~= index_name());
    assert(version@ =~= index_version());
    assert(url@ =~= index_url());
    assert(ident@ =~= index_ident());
    Krate { name, version, source: Source::Git { url, ident } }
}

/// `index_dir/.git`: its presence means that a checkout of the index is
/// already there.
pub fn index_git_marker(layout: &CacheLayout) -> (r: String)
    ensures
        r@ == join(layout.index_dir_spec(), seq!['.', 'g', 'i', 't']),
{
    proof { reveal_strlit(".git"); }
    join_path(layout.index_dir().as_str(), ".git")
}

/// Where the index snapshot is to be unpacked: nowhere unless it was asked
/// for, and nowhere when a checkout is already present, which the package
/// manager advances on its own.
pub fn index_destination(layout: &CacheLayout, include_index: bool, marker_exists: bool) -> (r: Option<String>)
    ensures
        r is Some <==> include_index && !marker_exists,
        r matches Some(d) ==> d@ == layout.index_dir_spec(),
{
    if include_index && !marker_exists {
        Some(layout.index_dir())
    } else {
        None
    }
}

} // verus!
