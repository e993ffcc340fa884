//! Entries observed during a walk, their identity keys, and paths as
//! sequences of components.
use vstd::prelude::*;

verus! {

/// A path, as the sequence of its components (the root component first).
pub type PathModel = Seq<Seq<char>>;

/// The identity of an entry: its name and its size in bytes.
pub type Key = (Seq<char>, u64);

/// The mathematical value of a [`FileEntry`].
pub struct EntryModel {
    pub name: Seq<char>,
    pub path: PathModel,
    pub size: u64,
    pub should_copy: bool,
}

impl EntryModel {
    pub open spec fn key(self) -> Key {
        (self.name, self.size)
    }
}

/// One filesystem object observed during a walk.
#[derive(Debug)]
pub struct FileEntry {
    /// The final component of the entry's path.
    pub name: String,
    /// The entry's path, root component first.
    pub path: Vec<String>,
    /// Its length in bytes when it was observed.
    pub size: u64,
    /// Whether the caller wants the entry copied; not part of its identity.
    pub should_copy: bool,
}

impl View for FileEntry {
    type V = EntryModel;

    open spec fn view(&self) -> EntryModel {
        EntryModel {
            name: self.name@,
            path: self.path.deep_view(),
            size: self.size,
            should_copy: self.should_copy,
        }
    }
}

/// A copy of a path, component by component.
pub fn clone_path(p: &Vec<String>) -> (r: Vec<String>)
    ensures
        r.deep_view() == p.deep_view(),
        r.len() == p.len(),
        forall|j: int| 0 <= j < p.len() ==> #[trigger] r@[j]@ == p@[j]@,
{
    let mut r: Vec<String> = Vec::new();
    let mut i: usize = 0;
    while i < p.len()
        invariant
            i <= p.len(),
            r.len() == i,
            forall|j: int| 0 <= j < i ==> #[trigger] r@[j]@ == p@[j]@,
        decreases p.len() - i,
    {
        let c = p[i].clone();
        r.push(c);
        i = i + 1;
    }
    assert(r.deep_view() =~= p.deep_view());
    r
}

impl FileEntry {
    /// A new entry, not marked for copying.
    pub fn new(name: String, path: Vec<String>, size: u64) -> (r: FileEntry)
        ensures
            r@ == (EntryModel { name: name@, path: path.deep_view(), size, should_copy: false }),
    {
        FileEntry { name, path, size, should_copy: false }
    }

    /// A field-by-field copy of the entry.
    pub fn duplicate(&self) -> (r: FileEntry)
        ensures
            r@ == self@,
    {
        FileEntry {
            name: self.name.clone(),
            path: clone_path(&self.path),
            size: self.size,
            should_copy: self.should_copy,
        }
    }

    /// Whether two entries are the same by identity: equal names and sizes,
    /// whatever their paths.
    pub fn same_identity(&self, other: &FileEntry) -> (r: bool)
        ensures
            r == (self@.key() == other@.key()),
    {
        self.size == other.size && self.name == other.name
    }
}

} // verus!
