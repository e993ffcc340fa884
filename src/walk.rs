//! The directory walk as a state machine. The caller reads the directory that
//! [`Walk::next_dir`] names and hands the listing to [`Walk::absorb`]; the walk
//! records the files by identity and keeps the subdirectories still to be
//! read. Directories are not entries of their own: only their contents are
//! compared, so a directory never matches a file of the same name and size.
use vstd::prelude::*;
use crate::entry::{EntryModel, FileEntry, PathModel};
use crate::entry_set::{EntrySet, inserted, key_set, lemma_inserted_keys};
use crate::paths::child;

verus! {

/// What the walk does with an entry whose name is not valid Unicode.
#[derive(Clone, Copy, PartialEq, Eq, Structural, Debug)]
pub enum NamePolicy {
    /// Leave the entry, and anything below it, out of the result.
    SkipEntry,
    /// Fail the whole walk.
    FailWalk,
}

/// One item of a directory listing, as the caller observed it.
#[derive(Debug)]
pub struct RawEntry {
    /// The entry's name; `None` when it is not valid Unicode.
    pub name: Option<String>,
    /// The entry's length in bytes; `None` when its metadata could not be read.
    pub size: Option<u64>,
    /// Whether the entry is a directory.
    pub is_dir: bool,
}

pub struct RawModel {
    pub name: Option<Seq<char>>,
    pub size: Option<u64>,
    pub is_dir: bool,
}

impl View for RawEntry {
    type V = RawModel;

    open spec fn view(&self) -> RawModel {
        RawModel {
            name: match self.name {
                Some(n) => Some(n@),
                None => None,
            },
            size: self.size,
            is_dir: self.is_dir,
        }
    }
}

/// The outcome of reading one directory.
#[derive(Debug)]
pub enum Listing {
    /// The directory could not be read; the text says why.
    Unreadable(String),
    /// The directory's items, in the order they were read.
    Entries(Vec<RawEntry>),
}

pub enum ListingModel {
    Unreadable(Seq<char>),
    Entries(Seq<RawModel>),
}

impl View for Listing {
    type V = ListingModel;

    open spec fn view(&self) -> ListingModel {
        match self {
            Listing::Unreadable(m) => ListingModel::Unreadable(m@),
            Listing::Entries(es) => ListingModel::Entries(es@.map_values(|r: RawEntry| r@)),
        }
    }
}

/// Why a walk failed.
#[derive(Debug)]
pub enum ScanError {
    /// The root directory could not be read; the text says why.
    RootUnreadable(String),
    /// Under [`NamePolicy::FailWalk`], a directory held a name that is not
    /// valid Unicode; this is that directory.
    NameEncoding(Vec<String>),
}

pub enum ScanErrorModel {
    RootUnreadable(Seq<char>),
    NameEncoding(PathModel),
}

impl View for ScanError {
    type V = ScanErrorModel;

    open spec fn view(&self) -> ScanErrorModel {
        match self {
            ScanError::RootUnreadable(m) => ScanErrorModel::RootUnreadable(m@),
            ScanError::NameEncoding(d) => ScanErrorModel::NameEncoding(d.deep_view()),
        }
    }
}

pub struct WalkModel {
    pub root: PathModel,
    pub policy: NamePolicy,
    /// Directories still to be read; the last one is read next.
    pub pending: Seq<PathModel>,
    pub found: Seq<EntryModel>,
    pub error: Option<ScanErrorModel>,
    /// Whether the root's listing has been taken in.
    pub root_listed: bool,
}

/// The walk after one item of the listing of `dir`. A directory is not an
/// entry of its own: it is queued, and only what lies in it is recorded.
pub open spec fn absorb_item(st: WalkModel, dir: PathModel, item: RawModel) -> WalkModel {
    if st.error.is_some() || item.size.is_none() {
        st
    } else if item.name.is_none() {
        if st.policy == NamePolicy::SkipEntry {
            st
        } else {
            WalkModel { error: Some(ScanErrorModel::NameEncoding(dir)), ..st }
        }
    } else if item.is_dir {
        WalkModel { pending: st.pending.push(dir.push(item.name.unwrap())), ..st }
    } else {
        let e = EntryModel {
            name: item.name.unwrap(),
            path: dir.push(item.name.unwrap()),
            size: item.size.unwrap(),
            should_copy: false,
        };
        WalkModel { found: inserted(st.found, e), ..st }
    }
}

/// The walk after the items of the listing of `dir`, in order.
pub open spec fn absorb_items(st: WalkModel, dir: PathModel, items: Seq<RawModel>) -> WalkModel
    decreases items.len(),
{
    if items.len() == 0 {
        st
    } else {
        absorb_item(absorb_items(st, dir, items.drop_last()), dir, items.last())
    }
}

/// The walk after the listing of the directory it named last. An unreadable
/// root fails the walk; an unreadable subdirectory is passed over.
pub open spec fn absorb_listing(st: WalkModel, listing: ListingModel) -> WalkModel {
    let dir = st.pending.last();
    let popped = WalkModel { pending: st.pending.drop_last(), root_listed: true, ..st };
    match listing {
        ListingModel::Unreadable(m) => if st.root_listed {
            popped
        } else {
            WalkModel { error: Some(ScanErrorModel::RootUnreadable(m)), ..popped }
        },
        ListingModel::Entries(items) => absorb_items(popped, dir, items),
    }
}

/// A walk over the tree under one root.
pub struct Walk {
    root: Vec<String>,
    policy: NamePolicy,
    pending: Vec<Vec<String>>,
    found: EntrySet,
    error: Option<ScanError>,
    root_listed: bool,
}

impl View for Walk {
    type V = WalkModel;

    closed spec fn view(&self) -> WalkModel {
        WalkModel {
            root: self.root.deep_view(),
            policy: self.policy,
            pending: self.pending.deep_view(),
            found: self.found@,
            error: match self.error {
                Some(e) => Some(e@),
                None => None,
            },
            root_listed: self.root_listed,
        }
    }
}

impl Walk {
    pub closed spec fn wf(&self) -> bool {
        self.found.wf()
    }

    /// Whether the walk has nothing more to read.
    pub open spec fn done(&self) -> bool {
        self@.error.is_some() || self@.pending.len() == 0
    }

    /// A walk that reads `root` first.
    pub fn new(root: Vec<String>, policy: NamePolicy) -> (r: Walk)
        ensures
            r.wf(),
            r@ == (WalkModel {
                root: root.deep_view(),
                policy,
                pending: seq![root.deep_view()],
                found: Seq::empty(),
                error: None,
                root_listed: false,
            }),
    {
        let first = crate::entry::clone_path(&root);
        let mut pending: Vec<Vec<String>> = Vec::new();
        pending.push(first);
        let r = Walk { root, policy, pending, found: EntrySet::new(), error: None, root_listed: false };
        assert(r@.pending =~= seq![r@.root]);
        r
    }

    /// The directory to read next, or `None` when the walk is done.
    pub fn next_dir(&self) -> (r: Option<Vec<String>>)
        ensures
            r.is_none() == self.done(),
            r.is_some() ==> r.unwrap().deep_view() == self@.pending.last(),
    {
        if self.error.is_some() || self.pending.len() == 0 {
            None
        } else {
            Some(crate::entry::clone_path(&self.pending[self.pending.len() - 1]))
        }
    }

    /// Takes in one item of the listing of `dir`.
    fn take_item(&mut self, dir: &Vec<String>, item: &RawEntry)
        requires
            old(self).wf(),
        ensures
            final(self).wf(),
            final(self)@ == absorb_item(old(self)@, dir.deep_view(), item@),
    {
        if self.error.is_some() || item.size.is_none() {
            return;
        }
        match &item.name {
            None => {
                if self.policy == NamePolicy::FailWalk {
                    self.error = Some(ScanError::NameEncoding(crate::entry::clone_path(dir)));
                }
            },
            Some(name) => {
                let path = child(dir, name);
                if item.is_dir {
                    self.pending.push(path);
                    assert(self@.pending =~= old(self)@.pending.push(dir.deep_view().push(name@)));
                } else {
                    self.found.insert(FileEntry::new(name.clone(), path, item.size.unwrap()));
                }
            },
        }
    }

    /// Takes in the listing of the directory that [`Walk::next_dir`] named.
    pub fn absorb(&mut self, listing: Listing)
        requires
            old(self).wf(),
            !old(self).done(),
        ensures
            final(self).wf(),
            final(self)@ == absorb_listing(old(self)@, listing@),
    {
        let ghost st0 = self@;
        let dir = self.pending.pop().unwrap();
        let was_listed = self.root_listed;
        self.root_listed = true;
        assert(self@.pending =~= st0.pending.drop_last());
        let ghost popped = self@;
        match listing {
            Listing::Unreadable(m) => {
                if !was_listed {
                    self.error = Some(ScanError::RootUnreadable(m));
                }
            },
            Listing::Entries(items) => {
                let ghost im = items@.map_values(|r: RawEntry| r@);
                let mut i: usize = 0;
                assert(im.take(0) =~= Seq::<RawModel>::empty());
                while i < items.len()
                    invariant
                        i <= items.len(),
                        im == items@.map_values(|r: RawEntry| r@),
                        self.wf(),
                        self@ == absorb_items(popped, dir.deep_view(), im.take(i as int)),
                    decreases items.len() - i,
                {
                    self.take_item(&dir, &items[i]);
                    assert(im.take(i as int + 1).drop_last() =~= im.take(i as int));
                    i = i + 1;
                }
                assert(im.take(items.len() as int) =~= im);
            },
        }
    }

    /// The entries found, or the error that ended the walk.
    pub fn finish(self) -> (r: Result<Vec<FileEntry>, ScanError>)
        ensures
            self@.error.is_some() <==> r.is_err(),
            r.is_err() ==> self@.error == Some(r.unwrap_err()@),
            r.is_ok() ==> crate::entry_set::models(r.unwrap()@) == self@.found,
    {
        match self.error {
            Some(e) => Err(e),
            None => Ok(self.found.into_vec()),
        }
    }
}

/// Taking in a listing never loses a key that the walk had found.
pub proof fn lemma_keys_kept(st: WalkModel, listing: ListingModel)
    requires
        st.pending.len() > 0,
    ensures
        key_set(st.found).subset_of(key_set(absorb_listing(st, listing).found)),
{
    let popped = WalkModel { pending: st.pending.drop_last(), root_listed: true, ..st };
    if let ListingModel::Entries(items) = listing {
        lemma_items_keep_keys(popped, st.pending.last(), items);
    }
}

proof fn lemma_items_keep_keys(st: WalkModel, dir: PathModel, items: Seq<RawModel>)
    ensures
        key_set(st.found).subset_of(key_set(absorb_items(st, dir, items).found)),
    decreases items.len(),
{
    if items.len() > 0 {
        lemma_items_keep_keys(st, dir, items.drop_last());
        let mid = absorb_items(st, dir, items.drop_last());
        let item = items.last();
        if !(mid.error.is_some() || item.size.is_none() || item.name.is_none() || item.is_dir) {
            let e = EntryModel {
                name: item.name.unwrap(),
                path: dir.push(item.name.unwrap()),
                size: item.size.unwrap(),
                should_copy: false,
            };
            lemma_inserted_keys(mid.found, e);
        }
    }
}

/// An unreadable subdirectory is passed over: once the root has been read,
/// a listing that failed leaves the entries found and the walk's health as
/// they were, and the walk goes on with the directories still pending.
pub proof fn lemma_unreadable_subdirectory(st: WalkModel, reason: Seq<char>)
    requires
        st.pending.len() > 0,
        st.root_listed,
    ensures
        absorb_listing(st, ListingModel::Unreadable(reason)).found == st.found,
        absorb_listing(st, ListingModel::Unreadable(reason)).error == st.error,
        absorb_listing(st, ListingModel::Unreadable(reason)).pending == st.pending.drop_last(),
{
}

} // verus!
