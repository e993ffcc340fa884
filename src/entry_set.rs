//! A set of entries keyed by identity: no two entries share a name and size.
use vstd::prelude::*;
use crate::entry::{EntryModel, FileEntry, Key};

verus! {

/// The entries of `s` as their models.
pub open spec fn models(v: Seq<FileEntry>) -> Seq<EntryModel> {
    v.map_values(|e: FileEntry| e@)
}

/// No two entries of `s` share an identity key.
pub open spec fn keys_unique(s: Seq<EntryModel>) -> bool {
    forall|i: int, j: int| 0 <= i < j < s.len() ==> s[i].key() != s[j].key()
}

/// Whether some entry of `s` has the key `k`.
pub open spec fn has_key(s: Seq<EntryModel>, k: Key) -> bool {
    exists|i: int| 0 <= i < s.len() && s[i].key() == k
}

/// The identity keys of the entries of `s`.
pub open spec fn key_set(s: Seq<EntryModel>) -> Set<Key> {
    Set::new(|k: Key| has_key(s, k))
}

/// `s` after observing `e`: an entry with the same key is replaced by `e`
/// (the last observation wins), otherwise `e` is added at the end.
pub open spec fn inserted(s: Seq<EntryModel>, e: EntryModel) -> Seq<EntryModel> {
    if has_key(s, e.key()) {
        s.update(choose|i: int| 0 <= i < s.len() && s[i].key() == e.key(), e)
    } else {
        s.push(e)
    }
}

/// Observing an entry adds its key to the key set and removes none.
pub proof fn lemma_inserted_keys(s: Seq<EntryModel>, e: EntryModel)
    ensures
        key_set(inserted(s, e)) == key_set(s).insert(e.key()),
{
    let r = inserted(s, e);
    if has_key(s, e.key()) {
        let c = choose|i: int| 0 <= i < s.len() && s[i].key() == e.key();
        assert forall|k: Key| key_set(s).insert(e.key()).contains(k) implies has_key(r, k) by {
            if k != e.key() {
                let w = choose|j: int| 0 <= j < s.len() && s[j].key() == k;
                assert(r[w].key() == k);
            } else {
                assert(r[c].key() == k);
            }
        }
        assert forall|k: Key| has_key(r, k) implies key_set(s).insert(e.key()).contains(k) by {
            let w = choose|j: int| 0 <= j < r.len() && r[j].key() == k;
            if w != c {
                assert(s[w].key() == k);
            }
        }
    } else {
        assert forall|k: Key| key_set(s).insert(e.key()).contains(k) implies has_key(r, k) by {
            if k != e.key() {
                let w = choose|j: int| 0 <= j < s.len() && s[j].key() == k;
                assert(r[w].key() == k);
            } else {
                assert(r[s.len() as int].key() == k);
            }
        }
        assert forall|k: Key| has_key(r, k) implies key_set(s).insert(e.key()).contains(k) by {
            let w = choose|j: int| 0 <= j < r.len() && r[j].key() == k;
            if w < s.len() {
                assert(s[w].key() == k);
            }
        }
    }
    assert(key_set(r) =~= key_set(s).insert(e.key()));
}


/// Entries with unique identity keys, in order of first observation.
pub struct EntrySet {
    entries: Vec<FileEntry>,
}

impl View for EntrySet {
    type V = Seq<EntryModel>;

    closed spec fn view(&self) -> Seq<EntryModel> {
        models(self.entries@)
    }
}

impl EntrySet {
    pub open spec fn wf(&self) -> bool {
        keys_unique(self@)
    }

    pub fn new() -> (r: EntrySet)
        ensures
            r.wf(),
            r@ == Seq::<EntryModel>::empty(),
    {
        EntrySet { entries: Vec::new() }
    }

    pub fn len(&self) -> (r: usize)
        ensures
            r == self@.len(),
    {
        self.entries.len()
    }

    /// The index of the entry whose key is that of `e`, if there is one.
    pub fn position_of(&self, e: &FileEntry) -> (r: Option<usize>)
        requires
            self.wf(),
        ensures
            r.is_some() == has_key(self@, e@.key()),
            r.is_some() ==> r.unwrap() < self@.len() && self@[r.unwrap() as int].key() == e@.key(),
    {
        let mut i: usize = 0;
        while i < self.entries.len()
            invariant
                i <= self.entries.len(),
                forall|j: int| 0 <= j < i ==> #[trigger] self@[j].key() != e@.key(),
            decreases self.entries.len() - i,
        {
            if self.entries[i].same_identity(e) {
                assert(self@[i as int] == self.entries@[i as int]@);
                return Some(i);
            }
            assert(self@[i as int] == self.entries@[i as int]@);
            i = i + 1;
        }
        None
    }

    /// Records `e`, replacing an entry with the same key.
    pub fn insert(&mut self, e: FileEntry)
        requires
            old(self).wf(),
        ensures
            final(self).wf(),
            final(self)@ == inserted(old(self)@, e@),
            key_set(final(self)@) == key_set(old(self)@).insert(e@.key()),
    {
        let ghost s0 = self@;
        let ghost ev = e@;
        proof {
            lemma_inserted_keys(s0, ev);
        }
        match self.position_of(&e) {
            Some(i) => {
                proof {
                    let c = choose|j: int| 0 <= j < s0.len() && s0[j].key() == ev.key();
                    assert(c == i as int);
                }
                self.entries.set(i, e);
                assert(self@ =~= s0.update(i as int, ev));
            },
            None => {
                self.entries.push(e);
                assert(self@ =~= s0.push(ev));
            },
        }
    }

    /// The entries, in order of first observation.
    pub fn into_vec(self) -> (r: Vec<FileEntry>)
        ensures
            models(r@) == self@,
    {
        self.entries
    }
}

} // verus!
