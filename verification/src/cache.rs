//! The app-name cache: a mapping from app identifier to display name,
//! populated lazily from successful app-attribute responses and consulted
//! before a notification is rendered. It only grows; nothing is evicted
//! for the life of the session.

use vstd::prelude::*;

verus! {

/// The mapping that a run of entries denotes: each entry binds its key,
/// and a later entry for the same key wins.
pub open spec fn spec_entries_map(s: Seq<(String, String)>) -> Map<Seq<char>, Seq<char>>
    decreases s.len(),
{
    if s.len() == 0 {
        Map::empty()
    } else {
        spec_entries_map(s.drop_last()).insert(s.last().0@, s.last().1@)
    }
}

/// What a lookup in a mapping yields: the bound name, if the key is bound.
pub open spec fn spec_lookup(m: Map<Seq<char>, Seq<char>>, k: Seq<char>) -> Option<Seq<char>> {
    if m.contains_key(k) {
        Some(m[k])
    } else {
        None
    }
}

proof fn lemma_entries_map_found(s: Seq<(String, String)>, k: Seq<char>, t: int)
    requires
        0 <= t < s.len(),
        s[t].0@ == k,
        forall|j: int| t < j < s.len() ==> (#[trigger] s[j]).0@ != k,
    ensures
        spec_entries_map(s).contains_key(k),
        spec_entries_map(s)[k] == s[t].1@,
    decreases s.len(),
{
    if t < s.len() - 1 {
        assert(forall|j: int| t < j < s.len() - 1 ==> (#[trigger] s.drop_last()[j]).0@ != k);
        lemma_entries_map_found(s.drop_last(), k, t);
    }
}

proof fn lemma_entries_map_missing(s: Seq<(String, String)>, k: Seq<char>)
    requires
        forall|j: int| 0 <= j < s.len() ==> (#[trigger] s[j]).0@ != k,
    ensures
        !spec_entries_map(s).contains_key(k),
    decreases s.len(),
{
    if s.len() > 0 {
        assert(forall|j: int| 0 <= j < s.len() - 1 ==> (#[trigger] s.drop_last()[j]).0@ != k);
        lemma_entries_map_missing(s.drop_last(), k);
    }
}

/// The app-name cache. Its view is the mapping from identifier characters
/// to display-name characters that the cached entries denote.
pub struct AppNameCache {
    entries: Vec<(String, String)>,
}

impl View for AppNameCache {
    type V = Map<Seq<char>, Seq<char>>;

    closed spec fn view(&self) -> Map<Seq<char>, Seq<char>> {
        spec_entries_map(self.entries@)
    }
}

impl AppNameCache {
    /// An empty cache, holding no identifier.
    pub fn new() -> (r: AppNameCache)
        ensures
            r@ == Map::<Seq<char>, Seq<char>>::empty(),
    {
        AppNameCache { entries: Vec::new() }
    }

    /// The display name cached for an identifier, if one is cached. The
    /// cache is read, never changed.
    pub fn lookup(&self, id: &String) -> (r: Option<String>)
        ensures
            crate::types::opt_str_view(r) == spec_lookup(self@, id@),
    {
        let n = self.entries.len();
        let mut i: usize = n;
        while i > 0
            invariant
                0 <= i <= n,
                n == self.entries@.len(),
                forall|t: int| i <= t < n ==> (#[trigger] self.entries@[t]).0@ != id@,
            decreases i,
        {
            i = i - 1;
            if self.entries[i].0 == *id {
                proof {
                    lemma_entries_map_found(self.entries@, id@, i as int);
                }
                return Some(self.entries[i].1.clone());
            }
        }
        proof {
            lemma_entries_map_missing(self.entries@, id@);
        }
        None
    }

    /// Binds a display name to an identifier. A name already bound to the
    /// same identifier is superseded; every other binding is kept.
    pub fn insert(&mut self, id: String, name: String)
        ensures
            final(self)@ == old(self)@.insert(id@, name@),
    {
        let ghost old_entries = self.entries@;
        let ghost id_chars = id@;
        let ghost name_chars = name@;
        self.entries.push((id, name));
        proof {
            assert(self.entries@.drop_last() =~= old_entries);
            assert(self.entries@.last().0@ == id_chars);
            assert(self.entries@.last().1@ == name_chars);
        }
    }
}

/// Law: a lookup of an identifier that the cache does not hold yields
/// `None`. `lookup` borrows the cache immutably and its result is a
/// function of the cache's value alone, so a second lookup with no
/// intervening insert yields `None` again.
pub proof fn lemma_lookup_miss(m: Map<Seq<char>, Seq<char>>, k: Seq<char>)
    requires
        !m.contains_key(k),
    ensures
        spec_lookup(m, k) is None,
{
}

} // verus!
