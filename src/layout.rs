use vstd::prelude::*;
use vstd::string::*;

verus! {

/// `a/b`.
pub open spec fn join(a: Seq<char>, b: Seq<char>) -> Seq<char> {
    a + seq!['/'] + b
}

/// The identifier of the public registry's directories.
pub open spec fn default_registry_id() -> Seq<char> {
    seq!['g', 'i', 't', 'h', 'u', 'b', '.', 'c', 'o', 'm', '-', '1', 'e', 'c', 'c', '6', '2', '9', '9', 'd', 'b', '9', 'e', 'c', '8', '2', '3']
}

pub fn join_path(a: &str, b: &str) -> (r: String)
    ensures
        r@ == join(a@, b@),
{
    let mut r = a.to_owned();
    r.append("/");
    r.append(b);
    proof { reveal_strlit("/"); }
    r
}

/// Whether `i` is the position of the extension's dot in `s`: a dot that is
/// not the first character and has no dot after it.
pub open spec fn is_ext_dot(s: Seq<char>, i: int) -> bool {
    0 < i < s.len() && s[i] == '.' && forall|j: int| i < j < s.len() ==> s[j] != '.'
}

/// `s` without its last extension, if it has one.
pub open spec fn strip_ext(s: Seq<char>) -> Seq<char> {
    if exists|i: int| is_ext_dot(s, i) {
        s.subrange(0, choose|i: int| is_ext_dot(s, i))
    } else {
        s
    }
}

/// Removes a single trailing extension from a file name (`foo-1.0.0.crate`
/// becomes `foo-1.0.0`); a name whose only dot leads it is kept.
pub fn strip_extension(name: &str) -> (r: String)
    ensures
        r@ == strip_ext(name@),
{
    let n = name.unicode_len();
    let mut i: usize = n;
    while i > 0
        invariant
            n == name@.len(),
            i <= n,
            forall|j: int| i <= j < n ==> name@[j] != '.',
        ensures
            i <= 1,
            forall|j: int| i <= j < n ==> name@[j] != '.',
        decreases i,
    {
        let k = i - 1;
        if name.get_char(k) == '.' {
            if k == 0 {
                break;
            }
            assert(is_ext_dot(name@, k as int));
            proof {
                assert forall|a: int, b: int| is_ext_dot(name@, a) && is_ext_dot(name@, b) implies a == b by {
                    if a < b {
                        assert(name@[b] != '.');
                    } else if b < a {
                        assert(name@[a] != '.');
                    }
                }
            }
            let r = name.substring_char(0, k).to_owned();
            return r;
        }
        i = k;
    }
    assert(!exists|j: int| is_ext_dot(name@, j)) by {
        if exists|j: int| is_ext_dot(name@, j) {
            let j = choose|j: int| is_ext_dot(name@, j);
            assert(j >= i);
        }
    }
    name.to_owned()
}

/// The root of a local package-manager cache and the identifier of the
/// registry whose directories it holds.
pub struct CacheLayout {
    pub root: String,
    pub registry_id: String,
}

impl CacheLayout {
    pub open spec fn registry_dir_spec(&self) -> Seq<char> {
        join(self.root@, seq!['r', 'e', 'g', 'i', 's', 't', 'r', 'y'])
    }

    pub open spec fn index_dir_spec(&self) -> Seq<char> {
        join(join(self.registry_dir_spec(), seq!['i', 'n', 'd', 'e', 'x']), self.registry_id@)
    }

    pub open spec fn cache_dir_spec(&self) -> Seq<char> {
        join(join(self.registry_dir_spec(), seq!['c', 'a', 'c', 'h', 'e']), self.registry_id@)
    }

    pub open spec fn src_dir_spec(&self) -> Seq<char> {
        join(join(self.registry_dir_spec(), seq!['s', 'r', 'c']), self.registry_id@)
    }

    pub open spec fn git_db_dir_spec(&self) -> Seq<char> {
        join(join(self.root@, seq!['g', 'i', 't']), seq!['d', 'b'])
    }

    pub open spec fn cargo_binary_spec(&self) -> Seq<char> {
        join(join(self.root@, seq!['b', 'i', 'n']), seq!['c', 'a', 'r', 'g', 'o'])
    }

    /// The layout of the public registry under `root`.
    pub fn new(root: String) -> (r: CacheLayout)
        ensures
            r.root@ == root@,
            r.registry_id@ == default_registry_id(),
    {
        let id = "github.com-1ecc6299db9ec823";
        proof { reveal_strlit("github.com-1ecc6299db9ec823"); }
        let registry_id = id.to_owned();
        assert(registry_id@ =~= default_registry_id());
        CacheLayout { root, registry_id }
    }

    pub fn with_registry(root: String, registry_id: String) -> (r: CacheLayout)
        ensures
            r.root@ == root@,
            r.registry_id@ == registry_id@,
    {
        CacheLayout { root, registry_id }
    }

    /// `root/registry`: the parent of the registry directories.
    pub fn registry_dir(&self) -> (r: String)
        ensures
            r@ == self.registry_dir_spec(),
    {
        proof { reveal_strlit("registry"); }
        join_path(self.root.as_str(), "registry")
    }

    /// `root/registry/index/<registry-id>`: the registry index snapshot.
    pub fn index_dir(&self) -> (r: String)
        ensures
            r@ == self.index_dir_spec(),
    {
        proof { reveal_strlit("index"); }
        let p = join_path(self.registry_dir().as_str(), "index");
        join_path(p.as_str(), self.registry_id.as_str())
    }

    /// `root/registry/cache/<registry-id>`: packed registry archives.
    pub fn cache_dir(&self) -> (r: String)
        ensures
            r@ == self.cache_dir_spec(),
    {
        proof { reveal_strlit("cache"); }
        let p = join_path(self.registry_dir().as_str(), "cache");
        join_path(p.as_str(), self.registry_id.as_str())
    }

    /// `root/registry/src/<registry-id>`: unpacked registry sources.
    pub fn src_dir(&self) -> (r: String)
        ensures
            r@ == self.src_dir_spec(),
    {
        proof { reveal_strlit("src"); }
        let p = join_path(self.registry_dir().as_str(), "src");
        join_path(p.as_str(), self.registry_id.as_str())
    }

    /// `root/git/db`: git checkouts.
    pub fn git_db_dir(&self) -> (r: String)
        ensures
            r@ == self.git_db_dir_spec(),
    {
        proof {
            reveal_strlit("git");
            reveal_strlit("db");
        }
        let p = join_path(self.root.as_str(), "git");
        join_path(p.as_str(), "db")
    }

    /// `root/bin/cargo`: the binary whose presence marks a genuine cache root.
    pub fn cargo_binary(&self) -> (r: String)
        ensures
            r@ == self.cargo_binary_spec(),
    {
        proof {
            reveal_strlit("bin");
            reveal_strlit("cargo");
        }
        let p = join_path(self.root.as_str(), "bin");
        join_path(p.as_str(), "cargo")
    }
}

/// The cache root: the one given explicitly, else the `CARGO_HOME` setting,
/// else `.cargo` under the home directory.
pub open spec fn root_choice(
    explicit: Option<Seq<char>>,
    cargo_home: Option<Seq<char>>,
    home: Option<Seq<char>>,
) -> Option<Seq<char>> {
    if explicit is Some {
        explicit
    } else if cargo_home is Some {
        cargo_home
    } else if home is Some {
        Some(join(home->Some_0, seq!['.', 'c', 'a', 'r', 'g', 'o']))
    } else {
        None
    }
}

pub open spec fn opt_view(o: Option<String>) -> Option<Seq<char>> {
    match o {
        Some(s) => Some(s@),
        None => None,
    }
}

/// Chooses the cache root; `None` when it cannot be determined.
pub fn determine_root(explicit: Option<String>, cargo_home: Option<String>, home: Option<String>) -> (r: Option<String>)
    ensures
        opt_view(r) == root_choice(opt_view(explicit), opt_view(cargo_home), opt_view(home)),
{
    match explicit {
        Some(p) => Some(p),
        None => match cargo_home {
            Some(p) => Some(p),
            None => match home {
                Some(h) => {
                    proof { reveal_strlit(".cargo"); }
                    Some(join_path(h.as_str(), ".cargo"))
                },
                None => None,
            },
        },
    }
}

} // verus!
