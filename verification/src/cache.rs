//! Protocol detection cache: (port, process name) → protocol.

use vstd::prelude::*;
use vstd::pervasive::VecAdditionalExecFns;
use crate::strutil::str_eq;

verus! {

/// One cached association.
pub type CacheEntry = (u16, String, String);

/// First protocol recorded for `(port, name)`, scanning from the front.
pub open spec fn cache_lookup(s: Seq<CacheEntry>, port: u16, name: Seq<char>) -> Option<Seq<char>>
    decreases s.len(),
{
    if s.len() == 0 {
        None
    } else if s[0].0 == port && s[0].1@ == name {
        Some(s[0].2@)
    } else {
        cache_lookup(s.drop_first(), port, name)
    }
}

/// Cache of detected protocols, keyed by port and process name.
pub struct ProtocolCache {
    entries: Vec<CacheEntry>,
}

impl View for ProtocolCache {
    type V = Seq<CacheEntry>;

    closed spec fn view(&self) -> Seq<CacheEntry> {
        self.entries@
    }
}

/// No key occurs twice.
pub open spec fn cache_keys_unique(s: Seq<CacheEntry>) -> bool {
    forall|i: int, j: int|
        0 <= i < j < s.len() ==> !(#[trigger] s[i].0 == #[trigger] s[j].0 && s[i].1@ == s[j].1@)
}

/// A later match is invisible when an earlier entry has the key.
proof fn lemma_lookup_found(s: Seq<CacheEntry>, i: int, port: u16, name: Seq<char>)
    requires
        0 <= i < s.len(),
        s[i].0 == port && s[i].1@ == name,
        forall|j: int| 0 <= j < i ==> !(#[trigger] s[j].0 == port && s[j].1@ == name),
    ensures
        cache_lookup(s, port, name) == Some(s[i].2@),
    decreases i,
{
    if i > 0 {
        lemma_lookup_found(s.drop_first(), i - 1, port, name);
    }
}

proof fn lemma_lookup_absent(s: Seq<CacheEntry>, port: u16, name: Seq<char>)
    requires
        forall|j: int| 0 <= j < s.len() ==> !(#[trigger] s[j].0 == port && s[j].1@ == name),
    ensures
        cache_lookup(s, port, name) is None,
    decreases s.len(),
{
    if s.len() > 0 {
        lemma_lookup_absent(s.drop_first(), port, name);
    }
}

/// Replacing the protocol of the first entry with a key changes the
/// lookup of that key alone.
proof fn lemma_lookup_update(s: Seq<CacheEntry>, i: int, v: CacheEntry, p2: u16, n2: Seq<char>)
    requires
        0 <= i < s.len(),
        v.0 == s[i].0 && v.1@ == s[i].1@,
        forall|j: int| 0 <= j < i ==> !(#[trigger] s[j].0 == s[i].0 && s[j].1@ == s[i].1@),
    ensures
        cache_lookup(s.update(i, v), p2, n2) == (if p2 == s[i].0 && n2 == s[i].1@ {
            Some(v.2@)
        } else {
            cache_lookup(s, p2, n2)
        }),
    decreases i,
{
    let s2 = s.update(i, v);
    if i == 0 {
        if !(p2 == s[0].0 && n2 == s[0].1@) {
            assert(s2.drop_first() =~= s.drop_first());
        }
    } else {
        assert(s2.drop_first() =~= s.drop_first().update(i - 1, v));
        lemma_lookup_update(s.drop_first(), i - 1, v, p2, n2);
    }
}

/// Appending an entry with a fresh key changes the lookup of that key alone.
proof fn lemma_lookup_push(s: Seq<CacheEntry>, e: CacheEntry, p2: u16, n2: Seq<char>)
    ensures
        cache_lookup(s.push(e), p2, n2) == (if cache_lookup(s, p2, n2) is Some {
            cache_lookup(s, p2, n2)
        } else if e.0 == p2 && e.1@ == n2 {
            Some(e.2@)
        } else {
            None::<Seq<char>>
        }),
    decreases s.len(),
{
    if s.len() == 0 {
        assert(s.push(e)[0] == e);
        assert(s.push(e).drop_first() =~= Seq::<CacheEntry>::empty());
    } else {
        assert(s.push(e).drop_first() =~= s.drop_first().push(e));
        lemma_lookup_push(s.drop_first(), e, p2, n2);
    }
}

/// Removing the only entry with a key makes that key absent and leaves
/// every other lookup unchanged.
proof fn lemma_lookup_remove(s: Seq<CacheEntry>, i: int, p2: u16, n2: Seq<char>)
    requires
        0 <= i < s.len(),
        cache_keys_unique(s),
    ensures
        cache_lookup(s.remove(i), p2, n2) == (if p2 == s[i].0 && n2 == s[i].1@ {
            None::<Seq<char>>
        } else {
            cache_lookup(s, p2, n2)
        }),
    decreases i,
{
    let s2 = s.remove(i);
    if i == 0 {
        assert(s2 =~= s.drop_first());
        if p2 == s[0].0 && n2 == s[0].1@ {
            assert(forall|j: int|
                0 <= j < s.drop_first().len() ==> !(#[trigger] s.drop_first()[j].0 == p2
                    && s.drop_first()[j].1@ == n2));
            lemma_lookup_absent(s.drop_first(), p2, n2);
        }
    } else {
        assert(s2[0] == s[0]);
        assert(s2.drop_first() =~= s.drop_first().remove(i - 1));
        lemma_lookup_remove(s.drop_first(), i - 1, p2, n2);
    }
}

impl ProtocolCache {
    /// Keys stay unique, so the cache behaves as a map.
    pub closed spec fn wf(self) -> bool {
        cache_keys_unique(self@)
    }

    pub fn new() -> (r: Self)
        ensures
            r@ == Seq::<CacheEntry>::empty(),
            r.wf(),
    {
        ProtocolCache { entries: Vec::new() }
    }

    /// Index of the entry with the given key, if one exists.
    fn find(&self, port: u16, process_name: &str) -> (r: Option<usize>)
        ensures
            match r {
                Some(i) => i < self@.len() && self@[i as int].0 == port && self@[i as int].1@
                    == process_name@ && (forall|j: int|
                    0 <= j < i ==> !(#[trigger] self@[j].0 == port && self@[j].1@
                        == process_name@)),
                None => forall|j: int|
                    0 <= j < self@.len() ==> !(#[trigger] self@[j].0 == port && self@[j].1@
                        == process_name@),
            },
    {
        let mut i: usize = 0;
        let n = self.entries.len();
        while i < n
            invariant
                i <= n,
                n == self@.len(),
                forall|j: int|
                    0 <= j < i ==> !(#[trigger] self@[j].0 == port && self@[j].1@
                        == process_name@),
            decreases n - i,
        {
            if self.entries[i].0 == port && str_eq(self.entries[i].1.as_str(), process_name) {
                return Some(i);
            }
            i = i + 1;
        }
        None
    }

    /// The protocol recorded for `(port, process_name)`, if any.
    pub fn get(&self, port: u16, process_name: &str) -> (r: Option<String>)
        ensures
            match r {
                Some(p) => cache_lookup(self@, port, process_name@) == Some(p@),
                None => cache_lookup(self@, port, process_name@) is None,
            },
    {
        match self.find(port, process_name) {
            Some(i) => {
                proof {
                    lemma_lookup_found(self@, i as int, port, process_name@);
                }
                Some(self.entries[i].2.clone())
            },
            None => {
                proof {
                    lemma_lookup_absent(self@, port, process_name@);
                }
                None
            },
        }
    }

    /// Records `protocol` for `(port, process_name)`, replacing any
    /// earlier record for the same key and touching no other key.
    pub fn insert(&mut self, port: u16, process_name: &str, protocol: &str)
        requires
            old(self).wf(),
        ensures
            final(self).wf(),
            forall|p2: u16, n2: Seq<char>|
                #[trigger] cache_lookup(final(self)@, p2, n2) == (if p2 == port && n2
                    == process_name@ {
                    Some(protocol@)
                } else {
                    cache_lookup(old(self)@, p2, n2)
                }),
    {
        let entry = (port, process_name.to_owned(), protocol.to_owned());
        match self.find(port, process_name) {
            Some(i) => {
                let ghost s = self@;
                self.entries.set(i, entry);
                proof {
                    assert forall|p2: u16, n2: Seq<char>|
                        #[trigger] cache_lookup(self@, p2, n2) == (if p2 == port && n2
                            == process_name@ {
                            Some(protocol@)
                        } else {
                            cache_lookup(s, p2, n2)
                        }) by {
                        lemma_lookup_update(s, i as int, entry, p2, n2);
                    }
                }
            },
            None => {
                let ghost s = self@;
                self.entries.push(entry);
                proof {
                    assert forall|p2: u16, n2: Seq<char>|
                        #[trigger] cache_lookup(self@, p2, n2) == (if p2 == port && n2
                            == process_name@ {
                            Some(protocol@)
                        } else {
                            cache_lookup(s, p2, n2)
                        }) by {
                        lemma_lookup_push(s, entry, p2, n2);
                        if !(p2 == port && n2 == process_name@) && cache_lookup(s, p2, n2)
                            is None {
                            assert(cache_lookup(self@, p2, n2) is None);
                        }
                        if p2 == port && n2 == process_name@ {
                            lemma_lookup_absent(s, p2, n2);
                        }
                    }
                }
            },
        }
    }

    /// Forgets the record for `(port, process_name)`, touching no other key.
    pub fn remove(&mut self, port: u16, process_name: &str)
        requires
            old(self).wf(),
        ensures
            final(self).wf(),
            forall|p2: u16, n2: Seq<char>|
                #[trigger] cache_lookup(final(self)@, p2, n2) == (if p2 == port && n2
                    == process_name@ {
                    None::<Seq<char>>
                } else {
                    cache_lookup(old(self)@, p2, n2)
                }),
    {
        match self.find(port, process_name) {
            Some(i) => {
                let ghost s = self@;
                self.entries.remove(i);
                proof {
                    assert(self@ =~= s.remove(i as int));
                    assert forall|p2: u16, n2: Seq<char>|
                        #[trigger] cache_lookup(self@, p2, n2) == (if p2 == port && n2
                            == process_name@ {
                            None::<Seq<char>>
                        } else {
                            cache_lookup(s, p2, n2)
                        }) by {
                        lemma_lookup_remove(s, i as int, p2, n2);
                    }
                }
            },
            None => {
                proof {
                    assert forall|p2: u16, n2: Seq<char>|
                        #[trigger] cache_lookup(self@, p2, n2) == (if p2 == port && n2
                            == process_name@ {
                            None::<Seq<char>>
                        } else {
                            cache_lookup(self@, p2, n2)
                        }) by {
                        if p2 == port && n2 == process_name@ {
                            lemma_lookup_absent(self@, p2, n2);
                        }
                    }
                }
            },
        }
    }

    /// Forgets everything.
    pub fn clear(&mut self)
        ensures
            final(self).wf(),
            final(self)@ == Seq::<CacheEntry>::empty(),
            forall|p2: u16, n2: Seq<char>|
                #[trigger] cache_lookup(final(self)@, p2, n2) is None,
    {
        self.entries.clear();
    }
}

impl Default for ProtocolCache {
    fn default() -> (r: Self)
        ensures
            r@ == Seq::<CacheEntry>::empty(),
            r.wf(),
    {
        ProtocolCache::new()
    }
}

} // verus!
