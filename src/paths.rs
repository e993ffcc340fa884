//! Paths as sequences of components: the prefix test, the relative part
//! under a root, and joining.
use vstd::prelude::*;
use crate::entry::{PathModel, clone_path};

verus! {

/// Whether `root` is a leading run of components of `path`.
pub open spec fn lies_under(path: PathModel, root: PathModel) -> bool {
    root.len() <= path.len() && path.take(root.len() as int) == root
}

/// The components of `path` that follow `root`.
pub open spec fn relative_to(path: PathModel, root: PathModel) -> PathModel {
    path.skip(root.len() as int)
}

/// The components of `path` after `root`, or `None` when `path` does not lie
/// under `root`; a whole component is compared at each step.
pub fn strip_prefix(path: &Vec<String>, root: &Vec<String>) -> (r: Option<Vec<String>>)
    ensures
        r.is_some() == lies_under(path.deep_view(), root.deep_view()),
        r.is_some() ==> r.unwrap().deep_view() == relative_to(path.deep_view(), root.deep_view()),
{
    if root.len() > path.len() {
        return None;
    }
    let mut i: usize = 0;
    while i < root.len()
        invariant
            i <= root.len() <= path.len(),
            forall|j: int| 0 <= j < i ==> #[trigger] path@[j]@ == root@[j]@,
        decreases root.len() - i,
    {
        if path[i] != root[i] {
            assert(path.deep_view().take(root.len() as int)[i as int] != root.deep_view()[i as int]);
            return None;
        }
        i = i + 1;
    }
    assert(path.deep_view().take(root.len() as int) =~= root.deep_view());
    let mut rel: Vec<String> = Vec::new();
    let mut k: usize = root.len();
    while k < path.len()
        invariant
            root.len() <= k <= path.len(),
            rel.len() == k - root.len(),
            forall|j: int| 0 <= j < rel.len() ==> #[trigger] rel@[j]@ == path@[j + root.len()]@,
        decreases path.len() - k,
    {
        rel.push(path[k].clone());
        k = k + 1;
    }
    assert(rel.deep_view() =~= relative_to(path.deep_view(), root.deep_view()));
    Some(rel)
}

/// `base` followed by the components of `rel`.
pub fn join(base: &Vec<String>, rel: &Vec<String>) -> (r: Vec<String>)
    ensures
        r.deep_view() == base.deep_view() + rel.deep_view(),
{
    let mut r = clone_path(base);
    let mut i: usize = 0;
    while i < rel.len()
        invariant
            i <= rel.len(),
            r.len() == base.len() + i,
            forall|j: int| 0 <= j < base.len() ==> #[trigger] r@[j]@ == base@[j]@,
            forall|j: int| 0 <= j < i ==> #[trigger] r@[j + base.len()]@ == rel@[j]@,
        decreases rel.len() - i,
    {
        let c = rel[i].clone();
        r.push(c);
        i = i + 1;
    }
    proof {
        assert forall|j: int| 0 <= j < r.len() implies r.deep_view()[j] == (base.deep_view()
            + rel.deep_view())[j] by {
            if j >= base.len() {
                assert(r@[(j - base.len()) + base.len()]@ == rel@[j - base.len()]@);
            }
        }
    }
    assert(r.deep_view() =~= base.deep_view() + rel.deep_view());
    r
}

/// `dir` followed by one more component.
pub fn child(dir: &Vec<String>, name: &String) -> (r: Vec<String>)
    ensures
        r.deep_view() == dir.deep_view().push(name@),
{
    let mut r = clone_path(dir);
    r.push(name.clone());
    assert(r.deep_view() =~= dir.deep_view().push(name@));
    r
}

} // verus!
