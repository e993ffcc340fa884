//! The comparison of two walks: the entries of each tree whose identity the
//! other tree lacks.
use vstd::prelude::*;
use crate::entry::{EntryModel, FileEntry, Key, PathModel};
use crate::entry_set::{key_set, models};
use crate::walk::ScanError;

verus! {

/// The entries of `a`, in order, whose identity key no entry of `b` has.
pub open spec fn missing_from(a: Seq<EntryModel>, b: Seq<EntryModel>) -> Seq<EntryModel> {
    a.filter(|e: EntryModel| !key_set(b).contains(e.key()))
}

pub struct ComparisonModel {
    pub left_missing: Seq<EntryModel>,
    pub right_missing: Seq<EntryModel>,
    pub left_root: PathModel,
    pub right_root: PathModel,
}

/// The comparison of the entries `a` found under `ra` with the entries `b`
/// found under `rb`.
pub open spec fn compared(
    a: Seq<EntryModel>,
    b: Seq<EntryModel>,
    ra: PathModel,
    rb: PathModel,
) -> ComparisonModel {
    ComparisonModel {
        left_missing: missing_from(a, b),
        right_missing: missing_from(b, a),
        left_root: ra,
        right_root: rb,
    }
}

/// Entries of each tree that the other tree lacks, with the two roots.
#[derive(Debug)]
pub struct ComparisonResult {
    /// Entries under the left root whose identity the right tree lacks.
    pub left_missing: Vec<FileEntry>,
    /// Entries under the right root whose identity the left tree lacks.
    pub right_missing: Vec<FileEntry>,
    pub left_root: Vec<String>,
    pub right_root: Vec<String>,
}

impl View for ComparisonResult {
    type V = ComparisonModel;

    open spec fn view(&self) -> ComparisonModel {
        ComparisonModel {
            left_missing: models(self.left_missing@),
            right_missing: models(self.right_missing@),
            left_root: self.left_root.deep_view(),
            right_root: self.right_root.deep_view(),
        }
    }
}

/// Whether some entry of `b` has the identity key of `e`.
fn has_identity(b: &Vec<FileEntry>, e: &FileEntry) -> (r: bool)
    ensures
        r == key_set(models(b@)).contains(e@.key()),
{
    let mut i: usize = 0;
    while i < b.len()
        invariant
            i <= b.len(),
            forall|j: int| 0 <= j < i ==> #[trigger] b@[j]@.key() != e@.key(),
        decreases b.len() - i,
    {
        if b[i].same_identity(e) {
            assert(models(b@)[i as int].key() == e@.key());
            return true;
        }
        i = i + 1;
    }
    assert(!crate::entry_set::has_key(models(b@), e@.key())) by {
        assert forall|j: int| 0 <= j < models(b@).len() implies models(b@)[j].key() != e@.key() by {
            assert(models(b@)[j] == b@[j]@);
        }
    }
    false
}

/// Copies of the entries of `a`, in order, whose identity key no entry of `b`
/// has; each copy keeps its path under `a`'s root.
pub fn missing(a: &Vec<FileEntry>, b: &Vec<FileEntry>) -> (r: Vec<FileEntry>)
    ensures
        models(r@) == missing_from(models(a@), models(b@)),
{
    let ghost am = models(a@);
    let ghost pred = |e: EntryModel| !key_set(models(b@)).contains(e.key());
    let mut r: Vec<FileEntry> = Vec::new();
    let mut i: usize = 0;
    assert(am.take(0) =~= Seq::<EntryModel>::empty());
    proof {
        reveal(Seq::filter);
    }
    while i < a.len()
        invariant
            i <= a.len(),
            am == models(a@),
            pred == (|e: EntryModel| !key_set(models(b@)).contains(e.key())),
            models(r@) == am.take(i as int).filter(pred),
        decreases a.len() - i,
    {
        let ghost before = models(r@);
        proof {
            reveal(Seq::filter);
            assert(am.take(i as int + 1).drop_last() =~= am.take(i as int));
            assert(am.take(i as int + 1).last() == a@[i as int]@);
        }
        if !has_identity(b, &a[i]) {
            r.push(a[i].duplicate());
            assert(models(r@) =~= before.push(a@[i as int]@));
        } else {
            assert(models(r@) =~= before);
        }
        i = i + 1;
    }
    assert(am.take(a.len() as int) =~= am);
    r
}

/// Compares the entries `left` found under `left_root` with the entries
/// `right` found under `right_root`.
pub fn compare(
    left: &Vec<FileEntry>,
    right: &Vec<FileEntry>,
    left_root: Vec<String>,
    right_root: Vec<String>,
) -> (r: ComparisonResult)
    ensures
        r@ == compared(models(left@), models(right@), left_root.deep_view(), right_root.deep_view()),
{
    ComparisonResult {
        left_missing: missing(left, right),
        right_missing: missing(right, left),
        left_root,
        right_root,
    }
}

/// Compares the outcomes of two walks. A failed walk fails the comparison
/// with its error, the left one first; no partial result is given.
pub fn find_diffs(
    left: Result<Vec<FileEntry>, ScanError>,
    right: Result<Vec<FileEntry>, ScanError>,
    left_root: Vec<String>,
    right_root: Vec<String>,
) -> (r: Result<ComparisonResult, ScanError>)
    ensures
        r.is_ok() == (left.is_ok() && right.is_ok()),
        left.is_err() ==> r == Err::<ComparisonResult, ScanError>(left.unwrap_err()),
        left.is_ok() && right.is_err() ==> r == Err::<ComparisonResult, ScanError>(right.unwrap_err()),
        r.is_ok() ==> r.unwrap()@ == compared(
            models(left.unwrap()@),
            models(right.unwrap()@),
            left_root.deep_view(),
            right_root.deep_view(),
        ),
{
    match left {
        Err(e) => Err(e),
        Ok(l) => match right {
            Err(e) => Err(e),
            Ok(rt) => Ok(compare(&l, &rt, left_root, right_root)),
        },
    }
}

/// The identity keys of the entries that `b` lacks are exactly the keys of
/// `a` that are not keys of `b`.
pub proof fn lemma_missing_keys(a: Seq<EntryModel>, b: Seq<EntryModel>)
    ensures
        key_set(missing_from(a, b)) == key_set(a).difference(key_set(b)),
{
    broadcast use vstd::seq_lib::group_filter_ensures;

    let pred = |e: EntryModel| !key_set(b).contains(e.key());
    let m = a.filter(pred);
    assert forall|k: Key| key_set(m).contains(k) implies key_set(a).difference(key_set(b)).contains(
        k,
    ) by {
        let i = choose|i: int| 0 <= i < m.len() && m[i].key() == k;
        assert(pred(m[i]));
        assert(m.contains(m[i]));
        a.lemma_filter_contains_rev(pred, m[i]);
        let j = choose|j: int| 0 <= j < a.len() && a[j] == m[i];
        assert(crate::entry_set::has_key(a, k));
    }
    assert forall|k: Key| key_set(a).difference(key_set(b)).contains(k) implies key_set(m).contains(
        k,
    ) by {
        let j = choose|j: int| 0 <= j < a.len() && a[j].key() == k;
        assert(pred(a[j]));
        assert(m.contains(a[j]));
        let i = choose|i: int| 0 <= i < m.len() && m[i] == a[j];
        assert(crate::entry_set::has_key(m, k));
    }
    assert(key_set(m) =~= key_set(a).difference(key_set(b)));
}

/// Comparing the trees the other way round swaps the two lists: the entries
/// that B lacks of A are the same, paths included, whichever tree comes first.
pub proof fn lemma_identity_symmetry(
    a: Seq<EntryModel>,
    b: Seq<EntryModel>,
    ra: PathModel,
    rb: PathModel,
)
    ensures
        compared(a, b, ra, rb).left_missing == compared(b, a, rb, ra).right_missing,
        compared(a, b, ra, rb).right_missing == compared(b, a, rb, ra).left_missing,
        key_set(compared(a, b, ra, rb).left_missing) == key_set(
            compared(b, a, rb, ra).right_missing,
        ),
{
}

/// No identity key is in both lists of one comparison, and neither list
/// shares a key with the other tree.
pub proof fn lemma_disjoint(a: Seq<EntryModel>, b: Seq<EntryModel>, ra: PathModel, rb: PathModel)
    ensures
        key_set(compared(a, b, ra, rb).left_missing).disjoint(
            key_set(compared(a, b, ra, rb).right_missing),
        ),
        key_set(compared(a, b, ra, rb).left_missing).disjoint(key_set(b)),
        key_set(compared(a, b, ra, rb).right_missing).disjoint(key_set(a)),
{
    lemma_missing_keys(a, b);
    lemma_missing_keys(b, a);
}

/// The keys in both lists depend only on the keys found in each tree, not on
/// the order in which the entries were found: two comparisons of walks that
/// found the same keys give the same keys.
pub proof fn lemma_keys_determine_result(
    a1: Seq<EntryModel>,
    b1: Seq<EntryModel>,
    a2: Seq<EntryModel>,
    b2: Seq<EntryModel>,
    ra: PathModel,
    rb: PathModel,
)
    requires
        key_set(a1) == key_set(a2),
        key_set(b1) == key_set(b2),
    ensures
        key_set(compared(a1, b1, ra, rb).left_missing) == key_set(
            compared(a2, b2, ra, rb).left_missing,
        ),
        key_set(compared(a1, b1, ra, rb).right_missing) == key_set(
            compared(a2, b2, ra, rb).right_missing,
        ),
{
    lemma_missing_keys(a1, b1);
    lemma_missing_keys(b1, a1);
    lemma_missing_keys(a2, b2);
    lemma_missing_keys(b2, a2);
}

} // verus!
