use vstd::prelude::*;
use vstd::string::*;

verus! {

/// Lexicographic order on names, character by character.
pub open spec fn lex_le(a: Seq<char>, b: Seq<char>) -> bool
    decreases a.len(),
{
    if a.len() == 0 {
        true
    } else if b.len() == 0 {
        false
    } else if a[0] != b[0] {
        (a[0] as int) < (b[0] as int)
    } else {
        lex_le(a.drop_first(), b.drop_first())
    }
}

/// Every name is no greater than the ones after it.
pub open spec fn sorted(s: Seq<Seq<char>>) -> bool {
    forall|i: int, j: int| 0 <= i < j < s.len() ==> lex_le(#[trigger] s[i], #[trigger] s[j])
}

/// The names of a list of directory entries.
pub open spec fn names_of(entries: Seq<String>) -> Seq<Seq<char>> {
    entries.map_values(|s: String| s@)
}

pub proof fn lemma_lex_total(a: Seq<char>, b: Seq<char>)
    ensures
        lex_le(a, b) || lex_le(b, a),
    decreases a.len(),
{
    if a.len() > 0 && b.len() > 0 {
        if a[0] == b[0] {
            lemma_lex_total(a.drop_first(), b.drop_first());
        } else {
            assert((a[0] as int) != (b[0] as int));
        }
    }
}

pub proof fn lemma_lex_antisymmetric(a: Seq<char>, b: Seq<char>)
    requires
        lex_le(a, b),
        lex_le(b, a),
    ensures
        a == b,
    decreases a.len(),
{
    if a.len() > 0 && b.len() > 0 {
        if a[0] != b[0] {
            assert((a[0] as int) != (b[0] as int));
        } else {
            lemma_lex_antisymmetric(a.drop_first(), b.drop_first());
            assert(a =~= seq![a[0]] + a.drop_first());
            assert(b =~= seq![b[0]] + b.drop_first());
        }
    }
}

pub proof fn lemma_lex_transitive(a: Seq<char>, b: Seq<char>, c: Seq<char>)
    requires
        lex_le(a, b),
        lex_le(b, c),
    ensures
        lex_le(a, c),
    decreases a.len(),
{
    if a.len() > 0 && b.len() > 0 && c.len() > 0 && a[0] == b[0] && b[0] == c[0] {
        lemma_lex_transitive(a.drop_first(), b.drop_first(), c.drop_first());
    }
}

/// Whether `a` comes no later than `b` in lexicographic order.
pub fn name_le(a: &str, b: &str) -> (r: bool)
    ensures
        r == lex_le(a@, b@),
{
    let na = a.unicode_len();
    let nb = b.unicode_len();
    let mut i: usize = 0;
    assert(a@.skip(0) =~= a@);
    assert(b@.skip(0) =~= b@);
    while i < na && i < nb
        invariant
            na == a@.len(),
            nb == b@.len(),
            i <= na,
            i <= nb,
            lex_le(a@, b@) == lex_le(a@.skip(i as int), b@.skip(i as int)),
        decreases na - i,
    {
        let ca = a.get_char(i);
        let cb = b.get_char(i);
        if ca != cb {
            return (ca as u32) < (cb as u32);
        }
        assert(a@.skip(i as int).drop_first() =~= a@.skip(i + 1));
        assert(b@.skip(i as int).drop_first() =~= b@.skip(i + 1));
        i = i + 1;
    }
    i == na
}

/// Whether `x` is among `names`, which are sorted: a binary search.
pub fn contains_sorted(names: &Vec<String>, x: &String) -> (r: bool)
    requires
        sorted(names_of(names@)),
    ensures
        r == names_of(names@).contains(x@),
{
    let ghost s = names_of(names@);
    let mut lo: usize = 0;
    let mut hi: usize = names.len();
    while lo < hi
        invariant
            s == names_of(names@),
            sorted(s),
            lo <= hi <= names@.len(),
            forall|k: int| 0 <= k < lo ==> lex_le(#[trigger] s[k], x@) && s[k] != x@,
            forall|k: int| hi <= k < s.len() ==> lex_le(x@, #[trigger] s[k]) && s[k] != x@,
        decreases hi - lo,
    {
        let mid = lo + (hi - lo) / 2;
        assert(s[mid as int] == names@[mid as int]@);
        if names[mid] == *x {
            return true;
        }
        if name_le(names[mid].as_str(), x.as_str()) {
            proof {
                assert forall|k: int| 0 <= k < mid + 1 implies lex_le(#[trigger] s[k], x@) && s[k] != x@ by {
                    if k < mid {
                        assert(lex_le(s[k], s[mid as int]));
                        lemma_lex_transitive(s[k], s[mid as int], x@);
                        if s[k] == x@ {
                            lemma_lex_antisymmetric(s[mid as int], x@);
                        }
                    }
                }
            }
            lo = mid + 1;
        } else {
            proof {
                lemma_lex_total(s[mid as int], x@);
                assert forall|k: int| mid <= k < s.len() implies lex_le(x@, #[trigger] s[k]) && s[k] != x@ by {
                    if k > mid {
                        assert(lex_le(s[mid as int], s[k]));
                        lemma_lex_transitive(x@, s[mid as int], s[k]);
                    }
                }
            }
            hi = mid;
        }
    }
    assert(!s.contains(x@)) by {
        if s.contains(x@) {
            let k = choose|k: int| 0 <= k < s.len() && s[k] == x@;
            assert(s[k] != x@);
        }
    }
    false
}

/// A sorted copy of `names`, holding the same names.
pub fn sort_names(names: &Vec<String>) -> (r: Vec<String>)
    ensures
        sorted(names_of(r@)),
        forall|n: Seq<char>| names_of(r@).contains(n) <==> names_of(names@).contains(n),
{
    let mut r: Vec<String> = Vec::new();
    let mut i: usize = 0;
    while i < names.len()
        invariant
            i <= names@.len(),
            sorted(names_of(r@)),
            forall|n: Seq<char>|
                names_of(r@).contains(n) <==> names_of(names@.subrange(0, i as int)).contains(n),
        decreases names@.len() - i,
    {
        let x = names[i].clone();
        let ghost old_r = names_of(r@);
        // the first position whose name comes after x
        let mut p: usize = 0;
        while p < r.len() && name_le(r[p].as_str(), x.as_str())
            invariant
                p <= r@.len(),
                old_r == names_of(r@),
                forall|k: int| 0 <= k < p ==> lex_le(#[trigger] old_r[k], x@),
            decreases r@.len() - p,
        {
            assert(old_r[p as int] == r@[p as int]@);
            p = p + 1;
        }
        proof {
            if p < r@.len() {
                assert(old_r[p as int] == r@[p as int]@);
                lemma_lex_total(old_r[p as int], x@);
            }
        }
        r.insert(p, x);
        proof {
            let s = names_of(r@);
            assert(s =~= old_r.insert(p as int, x@));
            assert forall|a: int, b: int| 0 <= a < b < s.len() implies lex_le(#[trigger] s[a], #[trigger] s[b]) by {
                if b < p {
                } else if a > p {
                    assert(s[a] == old_r[a - 1]);
                    assert(s[b] == old_r[b - 1]);
                } else if a == p {
                    assert(s[b] == old_r[b - 1]);
                    if b - 1 > p {
                        assert(lex_le(old_r[p as int], old_r[b - 1]));
                        lemma_lex_transitive(x@, old_r[p as int], old_r[b - 1]);
                    }
                } else if b == p {
                } else {
                    assert(s[b] == old_r[b - 1]);
                    assert(lex_le(old_r[a], x@));
                    if b - 1 >= p {
                        lemma_lex_total(old_r[p as int], x@);
                        assert(lex_le(old_r[a], old_r[b - 1]));
                    }
                }
            }
            let prefix = names_of(names@.subrange(0, i + 1));
            let prev = names_of(names@.subrange(0, i as int));
            assert(prefix =~= prev.push(x@));
            assert forall|n: Seq<char>| s.contains(n) <==> prefix.contains(n) by {
                if s.contains(n) {
                    let k = choose|k: int| 0 <= k < s.len() && s[k] == n;
                    if k == p {
                        assert(prefix[i as int] == n);
                    } else {
                        if k < p {
                            assert(old_r[k] == n);
                        } else {
                            assert(old_r[k - 1] == n);
                        }
                        assert(old_r.contains(n));
                        assert(prev.contains(n));
                        let m = choose|m: int| 0 <= m < prev.len() && prev[m] == n;
                        assert(prefix[m] == n);
                    }
                }
                if prefix.contains(n) {
                    let k = choose|k: int| 0 <= k < prefix.len() && prefix[k] == n;
                    if k < i {
                        assert(prev[k] == n);
                        assert(old_r.contains(n));
                        let m = choose|m: int| 0 <= m < old_r.len() && old_r[m] == n;
                        if m < p {
                            assert(s[m] == n);
                        } else {
                            assert(s[m + 1] == n);
                        }
                    } else {
                        assert(s[p as int] == n);
                    }
                }
            }
        }
        i = i + 1;
    }
    assert(names@.subrange(0, names@.len() as int) =~= names@);
    r
}

} // verus!
