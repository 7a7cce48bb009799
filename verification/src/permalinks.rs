//! The permalink table: a read-only mapping from content-relative path to
//! published absolute URL, with unique keys.

use vstd::prelude::*;

verus! {

/// Keys of the entry list are pairwise distinct.
pub open spec fn entry_keys_unique(entries: Seq<(String, String)>) -> bool {
    forall|i: int, j: int|
        0 <= i < j < entries.len() ==> (#[trigger] entries[i]).0@ != (#[trigger] entries[j]).0@
}

/// The mapping that an entry list stands for.
pub open spec fn map_of_entries(entries: Seq<(String, String)>) -> Map<Seq<char>, Seq<char>> {
    Map::new(
        |p: Seq<char>| exists|i: int| 0 <= i < entries.len() && (#[trigger] entries[i]).0@ == p,
        |p: Seq<char>|
            {
                let i = choose|i: int| 0 <= i < entries.len() && (#[trigger] entries[i]).0@ == p;
                entries[i].1@
            },
    )
}

/// With unique keys, each entry is mapped, and to its own URL.
proof fn lemma_entry_mapped(entries: Seq<(String, String)>, i: int)
    requires
        entry_keys_unique(entries),
        0 <= i < entries.len(),
    ensures
        map_of_entries(entries).contains_key(entries[i].0@),
        map_of_entries(entries)[entries[i].0@] == entries[i].1@,
{
    let p = entries[i].0@;
    assert(map_of_entries(entries).contains_key(p));
    let k = choose|k: int| 0 <= k < entries.len() && (#[trigger] entries[k]).0@ == p;
    if k < i {
        assert(entries[k].0@ != entries[i].0@);
    } else if i < k {
        assert(entries[i].0@ != entries[k].0@);
    }
}

/// Mapping from content-relative path (no leading `@/` marker) to published
/// absolute URL. Built once by the content-loading stage; read-only input of
/// link resolution. Keys are unique; insertion order is irrelevant.
#[derive(Debug)]
pub struct PermalinkTable {
    entries: Vec<(String, String)>,
}

/// Position of the entry keyed by `path`, with nothing keyed so before it.
fn find_key(entries: &Vec<(String, String)>, path: &String) -> (r: Option<usize>)
    ensures
        match r {
            Some(i) => i < entries@.len() && entries@[i as int].0@ == path@ && forall|j: int|
                0 <= j < i ==> (#[trigger] entries@[j]).0@ != path@,
            None => forall|j: int|
                0 <= j < entries@.len() ==> (#[trigger] entries@[j]).0@ != path@,
        },
{
    let n = entries.len();
    let mut i: usize = 0;
    while i < n
        invariant
            i <= n,
            n == entries@.len(),
            forall|j: int| 0 <= j < i ==> (#[trigger] entries@[j]).0@ != path@,
        decreases n - i,
    {
        let pair = &entries[i];
        if pair.0 == *path {
            return Some(i);
        }
        i = i + 1;
    }
    None
}

impl View for PermalinkTable {
    type V = Map<Seq<char>, Seq<char>>;

    closed spec fn view(&self) -> Map<Seq<char>, Seq<char>> {
        map_of_entries(self.entries@)
    }
}

impl PermalinkTable {
    #[verifier::type_invariant]
    spec fn wf(self) -> bool {
        entry_keys_unique(self.entries@)
    }

    /// An empty table.
    pub fn new() -> (r: Self)
        ensures
            r@ == Map::<Seq<char>, Seq<char>>::empty(),
    {
        let r = PermalinkTable { entries: Vec::new() };
        proof {
            assert(r@ =~= Map::<Seq<char>, Seq<char>>::empty());
        }
        r
    }

    /// Record the published URL of a path, replacing any earlier entry.
    pub fn insert(&mut self, path: String, url: String)
        ensures
            final(self)@ == old(self)@.insert(path@, url@),
    {
        proof {
            use_type_invariant(&*self);
        }
        let ghost old_entries = self.entries@;
        let mut entries: Vec<(String, String)> = Vec::new();
        std::mem::swap(&mut entries, &mut self.entries);
        let found = find_key(&entries, &path);
        if let Some(i) = found {
            let _replaced = entries.remove(i);
            proof {
                old_entries.remove_ensures(i as int);
            }
        }
        let ghost pruned = entries@;
        proof {
            // `path` keys no remaining entry, and the remaining keys stay
            // pairwise distinct
            assert forall|j: int| 0 <= j < pruned.len() implies (#[trigger] pruned[j]).0@
                != path@ by {
                if let Some(i) = found {
                    let idx = i as int;
                    if j < idx {
                        assert(pruned[j] == old_entries[j]);
                        assert(old_entries[j].0@ != old_entries[idx].0@);
                    } else {
                        assert(pruned[j] == old_entries[j + 1]);
                        assert(old_entries[idx].0@ != old_entries[j + 1].0@);
                    }
                }
            }
            assert forall|a: int, b: int| 0 <= a < b < pruned.len() implies (
            #[trigger] pruned[a]).0@ != (#[trigger] pruned[b]).0@ by {
                if let Some(i) = found {
                    let idx = i as int;
                    let oa = if a < idx {
                        a
                    } else {
                        a + 1
                    };
                    let ob = if b < idx {
                        b
                    } else {
                        b + 1
                    };
                    assert(pruned[a] == old_entries[oa]);
                    assert(pruned[b] == old_entries[ob]);
                }
            }
        }
        entries.push((path, url));
        self.entries = entries;
        proof {
            self.lemma_insert_view(old_entries, path, url, if found is Some {
                Some(found->Some_0 as int)
            } else {
                None
            });
        }
    }

    /// The view of the rebuilt entry list is the old view with one more pair.
    proof fn lemma_insert_view(
        self,
        old_entries: Seq<(String, String)>,
        path: String,
        url: String,
        found: Option<int>,
    )
        requires
            entry_keys_unique(old_entries),
            entry_keys_unique(self.entries@),
            match found {
                Some(idx) => 0 <= idx < old_entries.len() && old_entries[idx].0@ == path@
                    && self.entries@ == old_entries.remove(idx).push((path, url)),
                None => (forall|j: int|
                    0 <= j < old_entries.len() ==> (#[trigger] old_entries[j]).0@ != path@)
                    && self.entries@ == old_entries.push((path, url)),
            },
        ensures
            map_of_entries(self.entries@) == map_of_entries(old_entries).insert(path@, url@),
    {
        let new_entries = self.entries@;
        let pruned = match found {
            Some(idx) => old_entries.remove(idx),
            None => old_entries,
        };
        if let Some(idx) = found {
            old_entries.remove_ensures(idx);
        }
        let last = new_entries.len() - 1;
        let lhs = map_of_entries(new_entries);
        let rhs = map_of_entries(old_entries).insert(path@, url@);
        assert forall|p: Seq<char>| lhs.contains_key(p) implies rhs.contains_key(p) by {
            let j = choose|j: int| 0 <= j < new_entries.len() && (#[trigger] new_entries[j]).0@ == p;
            if j < last {
                assert(new_entries[j] == pruned[j]);
                let oj = match found {
                    Some(idx) => if j < idx {
                        j
                    } else {
                        j + 1
                    },
                    None => j,
                };
                assert(pruned[j] == old_entries[oj]);
                assert(map_of_entries(old_entries).contains_key(p));
            }
        }
        assert forall|p: Seq<char>| rhs.contains_key(p) implies lhs.contains_key(p) by {
            if p == path@ {
                assert(new_entries[last].0@ == p);
            } else {
                let k = choose|k: int|
                    0 <= k < old_entries.len() && (#[trigger] old_entries[k]).0@ == p;
                let j = match found {
                    Some(idx) => if k < idx {
                        k
                    } else {
                        k - 1
                    },
                    None => k,
                };
                if let Some(idx) = found {
                    assert(k != idx);
                    if k < idx {
                        assert(pruned[j] == old_entries[k]);
                    } else {
                        assert(pruned[j] == old_entries[k]);
                    }
                } else {
                    assert(pruned[j] == old_entries[k]);
                }
                assert(new_entries[j] == pruned[j]);
                assert(new_entries[j].0@ == p);
            }
        }
        assert forall|p: Seq<char>| lhs.contains_key(p) implies lhs[p] == rhs[p] by {
            let j = choose|j: int| 0 <= j < new_entries.len() && (#[trigger] new_entries[j]).0@ == p;
            lemma_entry_mapped(new_entries, j);
            if p == path@ {
                lemma_entry_mapped(new_entries, last);
                if j < last {
                    assert(new_entries[j].0@ != new_entries[last].0@);
                }
                assert(lhs[p] == url@);
            } else {
                assert(j < last);
                assert(new_entries[j] == pruned[j]);
                let oj = match found {
                    Some(idx) => if j < idx {
                        j
                    } else {
                        j + 1
                    },
                    None => j,
                };
                assert(pruned[j] == old_entries[oj]);
                lemma_entry_mapped(old_entries, oj);
            }
        }
        assert(lhs =~= rhs);
    }

    /// The published URL recorded for a path, if any.
    pub fn get<'a>(&'a self, path: &String) -> (r: Option<&'a String>)
        ensures
            match r {
                Some(url) => self@.contains_key(path@) && url@ == self@[path@],
                None => !self@.contains_key(path@),
            },
    {
        proof {
            use_type_invariant(&*self);
        }
        let n = self.entries.len();
        let mut i: usize = 0;
        while i < n
            invariant
                i <= n,
                n == self.entries@.len(),
                entry_keys_unique(self.entries@),
                forall|j: int| 0 <= j < i ==> (#[trigger] self.entries@[j]).0@ != path@,
            decreases n - i,
        {
            let pair = &self.entries[i];
            if pair.0 == *path {
                proof {
                    lemma_entry_mapped(self.entries@, i as int);
                }
                return Some(&pair.1);
            }
            i = i + 1;
        }
        None
    }

}

} // verus!
