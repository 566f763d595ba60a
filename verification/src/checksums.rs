//! The language-to-checksum mapping scraped from a product page. Keys are
//! the page's free-text language labels. Insertion keeps one entry per key,
//! the newest value winning; a claim removes the entry it returns, so a
//! checksum can be handed out at most once.

use vstd::prelude::*;

use crate::text::pairs_view;
use crate::text::str_eq;

verus! {

/// First index holding key `k`, searching from `i`.
pub open spec fn find_key_from(m: Seq<(Seq<char>, Seq<char>)>, k: Seq<char>, i: int) -> Option<int>
    decreases m.len() - i,
{
    if i < 0 || i >= m.len() {
        None
    } else if m[i].0 == k {
        Some(i)
    } else {
        find_key_from(m, k, i + 1)
    }
}

pub open spec fn spec_find_key(m: Seq<(Seq<char>, Seq<char>)>, k: Seq<char>) -> Option<int> {
    find_key_from(m, k, 0)
}

pub open spec fn spec_has_key(m: Seq<(Seq<char>, Seq<char>)>, k: Seq<char>) -> bool {
    spec_find_key(m, k) is Some
}

/// Entry keys are pairwise distinct.
pub open spec fn wf_keys(m: Seq<(Seq<char>, Seq<char>)>) -> bool {
    forall|a: int, b: int| 0 <= a < b < m.len() ==> (#[trigger] m[a]).0 != (#[trigger] m[b]).0
}

/// Insertion: an existing entry for the key gives way to the new value.
pub open spec fn spec_insert_pair(
    m: Seq<(Seq<char>, Seq<char>)>,
    k: Seq<char>,
    v: Seq<char>,
) -> Seq<(Seq<char>, Seq<char>)> {
    match spec_find_key(m, k) {
        None => m.push((k, v)),
        Some(i) => m.remove(i).push((k, v)),
    }
}

/// A claim: the key's value and the mapping without that entry, or the
/// unchanged mapping when the key is absent.
pub open spec fn spec_claim(m: Seq<(Seq<char>, Seq<char>)>, k: Seq<char>) -> (
    Option<Seq<char>>,
    Seq<(Seq<char>, Seq<char>)>,
) {
    match spec_find_key(m, k) {
        None => (None, m),
        Some(i) => (Some(m[i].1), m.remove(i)),
    }
}

pub proof fn lemma_find_key_from(m: Seq<(Seq<char>, Seq<char>)>, k: Seq<char>, i: int)
    requires
        0 <= i,
    ensures
        match find_key_from(m, k, i) {
            Some(x) => i <= x < m.len() && m[x].0 == k && (forall|j: int|
                i <= j < x ==> (#[trigger] m[j]).0 != k),
            None => forall|j: int| i <= j < m.len() ==> (#[trigger] m[j]).0 != k,
        },
    decreases m.len() - i,
{
    if i < m.len() && m[i].0 != k {
        lemma_find_key_from(m, k, i + 1);
    }
}

/// Removing an entry neither adds a key nor breaks key distinctness.
pub proof fn lemma_remove_keys(m: Seq<(Seq<char>, Seq<char>)>, i: int)
    requires
        0 <= i < m.len(),
    ensures
        wf_keys(m) ==> wf_keys(m.remove(i)),
        forall|k: Seq<char>| !spec_has_key(m, k) ==> !spec_has_key(m.remove(i), k),
        wf_keys(m) ==> !spec_has_key(m.remove(i), m[i].0),
    decreases 0int,
{
    m.remove_ensures(i);
    let r = m.remove(i);
    assert forall|k: Seq<char>| spec_has_key(r, k) implies spec_has_key(m, k) && (wf_keys(m)
        ==> m[i].0 != k) by {
        lemma_find_key_from(r, k, 0);
        let x = spec_find_key(r, k)->Some_0;
        let orig = if x < i {
            x
        } else {
            x + 1
        };
        assert(m[orig].0 == k);
        lemma_find_key_from(m, k, 0);
    }
    if wf_keys(m) {
        assert forall|a: int, b: int| 0 <= a < b < r.len() implies (#[trigger] r[a]).0 != (
        #[trigger] r[b]).0 by {
            let oa = if a < i {
                a
            } else {
                a + 1
            };
            let ob = if b < i {
                b
            } else {
                b + 1
            };
            assert(r[a] == m[oa] && r[b] == m[ob]);
        }
    }
}

/// The scraped checksum mapping of one product page.
pub struct ChecksumMap {
    pairs: Vec<(String, String)>,
}

impl View for ChecksumMap {
    type V = Seq<(Seq<char>, Seq<char>)>;

    closed spec fn view(&self) -> Seq<(Seq<char>, Seq<char>)> {
        pairs_view(self.pairs@)
    }
}

impl ChecksumMap {
    /// The empty mapping.
    pub fn new() -> (r: ChecksumMap)
        ensures
            r@ =~= Seq::<(Seq<char>, Seq<char>)>::empty(),
            wf_keys(r@),
    {
        ChecksumMap { pairs: Vec::new() }
    }

    fn find(&self, key: &str) -> (r: Option<usize>)
        ensures
            match r {
                Some(x) => spec_find_key(self@, key@) == Some(x as int),
                None => spec_find_key(self@, key@) is None,
            },
    {
        let mut i: usize = 0;
        while i < self.pairs.len()
            invariant
                i <= self.pairs.len(),
                find_key_from(self@, key@, 0) == find_key_from(self@, key@, i as int),
            decreases self.pairs.len() - i,
        {
            assert(self@[i as int] == (self.pairs@[i as int].0@, self.pairs@[i as int].1@));
            if str_eq(self.pairs[i].0.as_str(), key) {
                return Some(i);
            }
            i += 1;
        }
        None
    }

    /// Put a value for a key, displacing any entry the key already has.
    pub fn insert(&mut self, key: String, value: String)
        requires
            wf_keys(old(self)@),
        ensures
            final(self)@ == spec_insert_pair(old(self)@, key@, value@),
            wf_keys(final(self)@),
    {
        let ghost m = self@;
        proof {
            lemma_find_key_from(m, key@, 0);
        }
        let found = self.find(key.as_str());
        match found {
            Some(i) => {
                proof {
                    lemma_remove_keys(m, i as int);
                }
                let _ = self.pairs.remove(i);
                assert(self@ =~= m.remove(i as int));
                self.pairs.push((key, value));
                assert(self@ =~= m.remove(i as int).push((key@, value@)));
                proof {
                    lemma_push_new_key(m.remove(i as int), key@, value@);
                }
            },
            None => {
                self.pairs.push((key, value));
                assert(self@ =~= m.push((key@, value@)));
                proof {
                    lemma_push_new_key(m, key@, value@);
                }
            },
        }
    }

    /// Claim the checksum for a language label: return it and remove its
    /// entry, or return nothing and keep the mapping unchanged.
    pub fn claim(&mut self, key: &str) -> (r: Option<String>)
        requires
            wf_keys(old(self)@),
        ensures
            match r {
                Some(v) => spec_claim(old(self)@, key@).0 == Some(v@),
                None => spec_claim(old(self)@, key@).0 is None,
            },
            final(self)@ == spec_claim(old(self)@, key@).1,
            wf_keys(final(self)@),
    {
        let ghost m = self@;
        let found = self.find(key);
        match found {
            Some(i) => {
                proof {
                    lemma_find_key_from(m, key@, 0);
                    lemma_remove_keys(m, i as int);
                }
                let entry = self.pairs.remove(i);
                assert(self@ =~= m.remove(i as int));
                assert(m[i as int] == (entry.0@, entry.1@));
                Some(entry.1)
            },
            None => None,
        }
    }
}

/// Appending an entry whose key is absent keeps keys distinct.
proof fn lemma_push_new_key(m: Seq<(Seq<char>, Seq<char>)>, k: Seq<char>, v: Seq<char>)
    requires
        wf_keys(m),
        !spec_has_key(m, k),
    ensures
        wf_keys(m.push((k, v))),
{
    lemma_find_key_from(m, k, 0);
    let r = m.push((k, v));
    assert forall|a: int, b: int| 0 <= a < b < r.len() implies (#[trigger] r[a]).0 != (
    #[trigger] r[b]).0 by {
        if b == m.len() {
            assert(r[a] == m[a]);
        } else {
            assert(r[a] == m[a] && r[b] == m[b]);
        }
    }
}

/// The mapping a sequence of scraped rows builds: rows applied in order,
/// later rows displacing earlier entries with the same label.
pub open spec fn spec_build_map(rows: Seq<(Seq<char>, Seq<char>)>) -> Seq<(Seq<char>, Seq<char>)>
    decreases rows.len(),
{
    if rows.len() == 0 {
        Seq::empty()
    } else {
        spec_insert_pair(spec_build_map(rows.drop_last()), rows.last().0, rows.last().1)
    }
}

/// The mapping built from scraped `(language, checksum)` rows.
pub fn build_checksum_map(rows: &Vec<(String, String)>) -> (r: ChecksumMap)
    ensures
        r@ == spec_build_map(pairs_view(rows@)),
        wf_keys(r@),
{
    let ghost rv = pairs_view(rows@);
    let mut m = ChecksumMap::new();
    let mut i: usize = 0;
    while i < rows.len()
        invariant
            i <= rows.len(),
            rv == pairs_view(rows@),
            m@ == spec_build_map(rv.take(i as int)),
            wf_keys(m@),
        decreases rows.len() - i,
    {
        let key = rows[i].0.clone();
        let value = rows[i].1.clone();
        assert(rv[i as int] == (rows@[i as int].0@, rows@[i as int].1@));
        m.insert(key, value);
        proof {
            assert(rv.take(i + 1).drop_last() =~= rv.take(i as int));
            assert(rv.take(i + 1).last() == rv[i as int]);
        }
        i += 1;
    }
    proof {
        assert(rv.take(rows@.len() as int) =~= rv);
    }
    m
}

} // verus!
