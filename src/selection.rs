//! The selection state behind a list of entries: a header box that marks or
//! clears every entry, and shows a mixed state once a single entry changes.
use vstd::prelude::*;
use crate::entry::FileEntry;
use crate::entry_set::models;

verus! {

/// The state of a header box over a list of entries.
#[derive(Clone, Copy, PartialEq, Eq, Structural, Debug)]
pub struct Selected {
    /// Whether the box is checked.
    pub checked: bool,
    /// Whether the box shows a mixed state.
    pub indeterminate: bool,
}

impl Selected {
    pub fn new(checked: bool, indeterminate: bool) -> (r: Selected)
        ensures
            r.checked == checked,
            r.indeterminate == indeterminate,
    {
        Selected { checked, indeterminate }
    }

    /// After a single entry's box was drawn: when it changed, the header
    /// shows a mixed state.
    pub fn handle_checkbox_change(&mut self, changed: bool)
        ensures
            changed ==> final(self).checked && final(self).indeterminate,
            !changed ==> *final(self) == *old(self),
    {
        if changed {
            self.indeterminate = true;
            self.checked = true;
        }
    }
}

/// After the header box was drawn: when it changed, every entry takes the
/// header's value and the header no longer shows a mixed state.
pub fn select_all_checkbox(all: &mut Vec<FileEntry>, selected: &mut Selected, changed: bool)
    ensures
        !changed ==> *final(all) == *old(all) && *final(selected) == *old(selected),
        changed ==> final(selected).checked == old(selected).checked,
        changed ==> !final(selected).indeterminate,
        final(all).len() == old(all).len(),
        changed ==> forall|i: int|
            0 <= i < old(all).len() ==> #[trigger] models(final(all)@)[i] == (crate::entry::EntryModel {
                should_copy: old(selected).checked,
                ..models(old(all)@)[i]
            }),
{
    if !changed {
        return;
    }
    let value = selected.checked;
    let ghost a0 = models(all@);
    let mut i: usize = 0;
    while i < all.len()
        invariant
            i <= all.len(),
            all.len() == a0.len(),
            forall|j: int|
                0 <= j < i ==> #[trigger] models(all@)[j] == (crate::entry::EntryModel {
                    should_copy: value,
                    ..a0[j]
                }),
            forall|j: int| i <= j < all.len() ==> #[trigger] models(all@)[j] == a0[j],
        decreases all.len() - i,
    {
        let ghost before = models(all@);
        let mut e = all[i].duplicate();
        e.should_copy = value;
        assert(before[i as int] == a0[i as int]);
        assert(e@ == (crate::entry::EntryModel { should_copy: value, ..a0[i as int] }));
        all.set(i, e);
        assert(models(all@) =~= before.update(i as int, e@));
        i = i + 1;
    }
    selected.indeterminate = false;
}

} // verus!
