//! The store: an in-memory mapping from string keys to byte-string values.
//!
//! Internally the mapping is an association list with unique keys; its
//! mathematical model is a `Map<Seq<char>, Seq<u8>>`, and every public
//! operation is specified against that model alone.

use vstd::prelude::*;

verus! {

/// One key-to-value binding held by the store.
struct Entry {
    key: String,
    value: Vec<u8>,
}

/// The mapping described by a sequence of entries, later entries winning.
/// The store's invariant keeps keys unique, so order never actually matters.
spec fn map_of(entries: Seq<Entry>) -> Map<Seq<char>, Seq<u8>>
    decreases entries.len(),
{
    if entries.len() == 0 {
        Map::empty()
    } else {
        map_of(entries.drop_last()).insert(entries.last().key@, entries.last().value@)
    }
}

/// A key occurs in the sequence of entries.
spec fn has_key(entries: Seq<Entry>, k: Seq<char>) -> bool {
    exists|i: int| 0 <= i < entries.len() && entries[i].key@ == k
}

/// `map_of` contains exactly the keys that occur in the entries.
proof fn lemma_map_of_domain(entries: Seq<Entry>, k: Seq<char>)
    ensures
        map_of(entries).contains_key(k) <==> has_key(entries, k),
    decreases entries.len(),
{
    if entries.len() > 0 {
        lemma_map_of_domain(entries.drop_last(), k);
        if entries.last().key@ == k {
            assert(entries[entries.len() - 1].key@ == k);
        } else {
            if has_key(entries.drop_last(), k) {
                let i = choose|i: int|
                    0 <= i < entries.drop_last().len() && entries.drop_last()[i].key@ == k;
                assert(entries[i].key@ == k);
            }
            if has_key(entries, k) {
                let i = choose|i: int| 0 <= i < entries.len() && entries[i].key@ == k;
                assert(entries.drop_last()[i].key@ == k);
            }
        }
    }
}

/// Pairwise-distinct keys among the entries.
spec fn keys_unique(entries: Seq<Entry>) -> bool {
    forall|i: int, j: int|
        0 <= i < j < entries.len() ==> entries[i].key@ != entries[j].key@
}

/// With unique keys, the entry at index `i` gives the value `map_of` assigns
/// to its key.
proof fn lemma_map_of_index(entries: Seq<Entry>, i: int)
    requires
        keys_unique(entries),
        0 <= i < entries.len(),
    ensures
        map_of(entries).contains_key(entries[i].key@),
        map_of(entries)[entries[i].key@] == entries[i].value@,
    decreases entries.len(),
{
    if i == entries.len() - 1 {
    } else {
        assert(entries.drop_last()[i] == entries[i]);
        lemma_map_of_index(entries.drop_last(), i);
        assert(entries.last().key@ != entries[i].key@);
    }
}

/// Removing the entry at index `i` keeps keys unique and removes exactly
/// that entry's key from the modelled mapping.
proof fn lemma_map_of_remove(entries: Seq<Entry>, i: int)
    requires
        keys_unique(entries),
        0 <= i < entries.len(),
    ensures
        keys_unique(entries.remove(i)),
        map_of(entries.remove(i)) == map_of(entries).remove(entries[i].key@),
    decreases entries.len(),
{
    entries.remove_ensures(i);
    let k = entries[i].key@;
    let dl = entries.drop_last();
    assert(keys_unique(dl)) by {
        assert(forall|x: int, y: int|
            0 <= x < y < dl.len() ==> dl[x] == entries[x] && dl[y] == entries[y]);
    }
    if i == entries.len() - 1 {
        assert(entries.remove(i) =~= dl);
        lemma_map_of_domain(dl, k);
        assert(!has_key(dl, k)) by {
            assert(forall|x: int| 0 <= x < dl.len() ==> dl[x] == entries[x]);
        }
        assert(map_of(entries).remove(k) =~= map_of(dl));
    } else {
        let e2 = entries.remove(i);
        lemma_map_of_remove(dl, i);
        dl.remove_ensures(i);
        assert(e2.last() == entries.last());
        assert(e2.drop_last() =~= dl.remove(i));
        let lastk = entries.last().key@;
        let lastv = entries.last().value@;
        assert(k != lastk);
        assert(dl[i] == entries[i]);
        assert(map_of(e2) == map_of(dl).remove(k).insert(lastk, lastv));
        assert(map_of(dl).remove(k).insert(lastk, lastv)
            =~= map_of(dl).insert(lastk, lastv).remove(k));
        assert(keys_unique(e2)) by {
            assert(forall|x: int|
                0 <= x < e2.len() ==> e2[x] == if x < i { entries[x] } else { entries[x + 1] });
        }
    }
}

/// Appending an entry whose key is fresh keeps keys unique and inserts the
/// binding into the modelled mapping.
proof fn lemma_map_of_push(entries: Seq<Entry>, e: Entry)
    requires
        keys_unique(entries),
        !has_key(entries, e.key@),
    ensures
        keys_unique(entries.push(e)),
        map_of(entries.push(e)) == map_of(entries).insert(e.key@, e.value@),
{
    assert(entries.push(e).drop_last() =~= entries);
    assert(entries.push(e).last() == e);
    assert(keys_unique(entries.push(e))) by {
        assert(forall|x: int| 0 <= x < entries.len() ==> entries.push(e)[x] == entries[x]);
        assert(entries.push(e)[entries.len() as int] == e);
    }
}

/// The in-memory key-value store: the service's sole piece of mutable state.
pub struct Store {
    entries: Vec<Entry>,
}

impl Store {
    /// The mathematical mapping this store currently holds.
    pub closed spec fn view(&self) -> Map<Seq<char>, Seq<u8>> {
        map_of(self.entries@)
    }

    #[verifier::type_invariant]
    spec fn wf(&self) -> bool {
        keys_unique(self.entries@)
    }

    /// Create an empty store.
    pub fn new() -> (s: Store)
        ensures
            s@ == Map::<Seq<char>, Seq<u8>>::empty(),
    {
        Store { entries: Vec::new() }
    }

    /// Linear search for the index holding `key`.
    fn find(&self, key: &String) -> (r: Option<usize>)
        ensures
            match r {
                Some(i) => i < self.entries@.len() && self.entries@[i as int].key@ == key@,
                None => !has_key(self.entries@, key@),
            },
    {
        let n = self.entries.len();
        let mut i: usize = 0;
        while i < n
            invariant
                n == self.entries@.len(),
                i <= n,
                forall|j: int| 0 <= j < i ==> self.entries@[j].key@ != key@,
            decreases n - i,
        {
            if self.entries[i].key == *key {
                return Some(i);
            }
            i = i + 1;
        }
        None
    }

    /// Look up `key`; `None` signals absence. No side effect.
    pub fn get(&self, key: &String) -> (r: Option<&Vec<u8>>)
        ensures
            match r {
                Some(v) => self@.contains_key(key@) && v@ == self@[key@],
                None => !self@.contains_key(key@),
            },
    {
        proof {
            use_type_invariant(&*self);
            lemma_map_of_domain(self.entries@, key@);
        }
        match self.find(key) {
            Some(i) => {
                proof {
                    lemma_map_of_index(self.entries@, i as int);
                }
                Some(&self.entries[i].value)
            },
            None => None,
        }
    }

    /// Insert or overwrite the binding for `key`. Always succeeds.
    pub fn set(&mut self, key: String, value: Vec<u8>)
        ensures
            final(self)@ == old(self)@.insert(key@, value@),
    {
        proof {
            use_type_invariant(&*self);
        }
        self.delete(&key);
        proof {
            use_type_invariant(&*self);
            lemma_map_of_domain(self.entries@, key@);
        }
        let ghost mid = self.entries@;
        let mut entries = Vec::new();
        core::mem::swap(&mut entries, &mut self.entries);
        let e = Entry { key, value };
        proof {
            lemma_map_of_push(mid, e);
        }
        entries.push(e);
        self.entries = entries;
        proof {
            assert(old(self)@.remove(e.key@).insert(e.key@, e.value@)
                =~= old(self)@.insert(e.key@, e.value@));
        }
    }

    /// Remove the binding for `key` if present; a no-op, not a failure, when
    /// the key is absent.
    pub fn delete(&mut self, key: &String)
        ensures
            final(self)@ == old(self)@.remove(key@),
    {
        proof {
            use_type_invariant(&*self);
        }
        match self.find(key) {
            Some(i) => {
                let ghost before = self.entries@;
                let mut entries = Vec::new();
                core::mem::swap(&mut entries, &mut self.entries);
                proof {
                    lemma_map_of_remove(before, i as int);
                }
                entries.remove(i);
                self.entries = entries;
            },
            None => {
                proof {
                    lemma_map_of_domain(self.entries@, key@);
                    assert(self@.remove(key@) =~= self@);
                }
            },
        }
    }
}

} // verus!
