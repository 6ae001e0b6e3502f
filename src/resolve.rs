//! Choosing the repositories that a list of source files justifies.

use vstd::prelude::*;
use vstd::string::*;
use crate::text::{has_prefix, starts_with};

verus! {

/// What was found out about one source file: the root of the working tree
/// that holds it (none where the file is missing or in no working tree), and
/// whether the file is committed at that tree's head revision.
#[derive(Debug)]
pub struct SourceLookup {
    pub root: Option<String>,
    pub committed: bool,
}

/// The working-tree root of a lookup, as text.
pub open spec fn root_of(l: SourceLookup) -> Option<Seq<char>> {
    match l.root {
        Some(r) => Some(r@),
        None => None,
    }
}

/// A lookup that can justify its tree: the file is in a tree and tracked there.
pub open spec fn justifies(l: SourceLookup) -> bool {
    l.root is Some && l.committed
}

/// The lookup at `i` brings its tree in: it justifies it, and no earlier
/// lookup already did for the same root.
pub open spec fn brings_in(s: Seq<SourceLookup>, i: int) -> bool {
    0 <= i < s.len() && justifies(s[i]) && forall|j: int|
        0 <= j < i && justifies(s[j]) ==> root_of(s[j]) != root_of(s[i])
}

/// `r` lists, in increasing order, exactly the lookups of `s` that bring
/// their tree in.
pub open spec fn is_selection(s: Seq<SourceLookup>, r: Seq<usize>) -> bool {
    &&& forall|k: int| 0 <= k < r.len() ==> brings_in(s, r[k] as int)
    &&& forall|k1: int, k2: int| 0 <= k1 < k2 < r.len() ==> r[k1] < r[k2]
    &&& forall|i: int| brings_in(s, i) ==> exists|k: int| 0 <= k < r.len() && r[k] == i
}

/// Every lookup that justifies its tree has an earlier or equal lookup of the
/// same root that brings that tree in.
pub proof fn lemma_justified_root_brought_in(s: Seq<SourceLookup>, j: int)
    requires
        0 <= j < s.len(),
        justifies(s[j]),
    ensures
        exists|m: int| 0 <= m <= j && brings_in(s, m) && root_of(s[m]) == root_of(s[j]),
    decreases j,
{
    if !brings_in(s, j) {
        let j2 = choose|j2: int| 0 <= j2 < j && justifies(s[j2]) && root_of(s[j2]) == root_of(s[j]);
        lemma_justified_root_brought_in(s, j2);
    }
}

/// A selection never holds two lookups of the same working-tree root; where
/// all lookups justify one and the same root, it holds exactly one.
pub proof fn lemma_selection_roots_distinct(s: Seq<SourceLookup>, r: Seq<usize>)
    requires
        is_selection(s, r),
    ensures
        forall|k1: int, k2: int|
            0 <= k1 < k2 < r.len() ==> root_of(s[r[k1] as int]) != root_of(s[r[k2] as int]),
        (s.len() > 0 && forall|i: int| 0 <= i < s.len() ==> justifies(s[i]) && root_of(s[i]) == root_of(s[0]))
            ==> r.len() == 1,
{
    assert forall|k1: int, k2: int| 0 <= k1 < k2 < r.len() implies root_of(s[r[k1] as int])
        != root_of(s[r[k2] as int]) by {
        assert(brings_in(s, r[k2] as int));
        assert(brings_in(s, r[k1] as int));
    }
    if s.len() > 0 && forall|i: int| 0 <= i < s.len() ==> justifies(s[i]) && root_of(s[i]) == root_of(s[0]) {
        assert(brings_in(s, 0));
        let k0 = choose|k: int| 0 <= k < r.len() && r[k] == 0;
        assert(r.len() >= 1);
        if r.len() > 1 {
            assert(brings_in(s, r[0] as int));
            assert(brings_in(s, r[1] as int));
            assert(root_of(s[r[0] as int]) == root_of(s[0]));
            assert(root_of(s[r[1] as int]) == root_of(s[0]));
        }
    }
}

/// A source file that is not committed at head brings nothing in, while a
/// committed file of the same working tree still has that tree selected.
pub proof fn lemma_uncommitted_file_excluded(s: Seq<SourceLookup>, r: Seq<usize>, i: int, j: int)
    requires
        is_selection(s, r),
        0 <= i < s.len(),
        !s[i].committed,
        0 <= j < s.len(),
        justifies(s[j]),
    ensures
        forall|k: int| 0 <= k < r.len() ==> r[k] != i,
        exists|k: int| 0 <= k < r.len() && root_of(s[r[k] as int]) == root_of(s[j]),
{
    assert forall|k: int| 0 <= k < r.len() implies r[k] != i by {
        assert(brings_in(s, r[k] as int));
    }
    lemma_justified_root_brought_in(s, j);
    let m = choose|m: int| 0 <= m <= j && brings_in(s, m) && root_of(s[m]) == root_of(s[j]);
    let k = choose|k: int| 0 <= k < r.len() && r[k] == m;
    assert(root_of(s[r[k] as int]) == root_of(s[j]));
}

fn contains_root(roots: &Vec<String>, root: &String) -> (r: bool)
    ensures
        r == exists|k: int| 0 <= k < roots@.len() && roots@[k]@ == root@,
{
    let mut k: usize = 0;
    while k < roots.len()
        invariant
            k <= roots@.len(),
            forall|j: int| 0 <= j < k ==> roots@[j]@ != root@,
        decreases roots@.len() - k,
    {
        if roots[k] == *root {
            return true;
        }
        k = k + 1;
    }
    false
}

/// Picks, in order, the lookups whose working tree is to be kept: the first
/// tracked file of each distinct root. Files in no tree, and files that are
/// not committed at head, justify nothing; a later tracked file of the same
/// tree still can.
pub fn select_repositories(lookups: &Vec<SourceLookup>) -> (r: Vec<usize>)
    ensures
        is_selection(lookups@, r@),
{
    let mut r: Vec<usize> = Vec::new();
    let mut roots: Vec<String> = Vec::new();
    let mut i: usize = 0;
    while i < lookups.len()
        invariant
            i <= lookups@.len(),
            roots@.len() == r@.len(),
            forall|k: int| 0 <= k < r@.len() ==> r@[k] < i && brings_in(lookups@, r@[k] as int),
            forall|k: int|
                0 <= k < r@.len() ==> root_of(lookups@[r@[k] as int]) == Some(roots@[k]@),
            forall|k1: int, k2: int| 0 <= k1 < k2 < r@.len() ==> r@[k1] < r@[k2],
            forall|j: int|
                0 <= j < i && justifies(lookups@[j]) ==> exists|k: int|
                    0 <= k < roots@.len() && Some(roots@[k]@) == root_of(lookups@[j]),
            forall|j: int| 0 <= j < i && brings_in(lookups@, j) ==> exists|k: int|
                0 <= k < r@.len() && r@[k] == j,
        decreases lookups@.len() - i,
    {
        let ghost old_r = r@;
        let ghost old_roots = roots@;
        let l = &lookups[i];
        if l.committed {
            match &l.root {
                Some(root) => {
                    if !contains_root(&roots, root) {
                        assert(brings_in(lookups@, i as int));
                        r.push(i);
                        roots.push(root.clone());
                        assert(r@[r@.len() - 1] == i);
                    } else {
                        assert(!brings_in(lookups@, i as int));
                    }
                },
                None => {},
            }
        }
        proof {
            assert forall|j: int| 0 <= j <= i && justifies(lookups@[j]) implies exists|k: int|
                0 <= k < roots@.len() && Some(roots@[k]@) == root_of(lookups@[j]) by {
                if j < i {
                    let k = choose|k: int|
                        0 <= k < old_roots.len() && Some(old_roots[k]@) == root_of(lookups@[j]);
                    assert(roots@[k] == old_roots[k]);
                } else if roots@.len() > old_roots.len() {
                    assert(Some(roots@[roots@.len() - 1]@) == root_of(lookups@[j]));
                } else {
                    let k = choose|k: int|
                        0 <= k < old_roots.len() && old_roots[k]@ == lookups@[j].root->0@;
                    assert(roots@[k] == old_roots[k]);
                }
            }
            assert forall|j: int| 0 <= j <= i && brings_in(lookups@, j) implies exists|k: int|
                0 <= k < r@.len() && r@[k] == j by {
                if j < i {
                    let k = choose|k: int| 0 <= k < old_r.len() && old_r[k] == j;
                    assert(r@[k] == old_r[k]);
                } else {
                    assert(r@[r@.len() - 1] == j);
                }
            }
        }
        i = i + 1;
    }
    r
}

/// The path of `file` relative to the working-tree root `root`, where `root`
/// is a leading part of it that ends at a separator.
pub open spec fn relative_spec(file: Seq<char>, root: Seq<char>) -> Option<Seq<char>> {
    if has_prefix(file, root) {
        let rest = file.skip(root.len() as int);
        if root.len() > 0 && root.last() == '/' {
            Some(rest)
        } else if rest.len() == 0 {
            Some(rest)
        } else if rest[0] == '/' {
            Some(rest.skip(1))
        } else {
            None
        }
    } else {
        None
    }
}

/// The path of a source file relative to the root of its working tree, in
/// the form that is looked up in the tree at head.
pub fn relative_path(file: &str, root: &str) -> (r: Option<String>)
    ensures
        match r {
            Some(p) => relative_spec(file@, root@) == Some(p@),
            None => relative_spec(file@, root@) is None,
        },
{
    if !starts_with(file, root) {
        return None;
    }
    let n = file.unicode_len();
    let m = root.unicode_len();
    if m > 0 && root.get_char(m - 1) == '/' {
        return Some(String::from_str(file.substring_char(m, n)));
    }
    if m == n {
        return Some(String::from_str(file.substring_char(m, n)));
    }
    if file.get_char(m) == '/' {
        assert(file@.skip(m as int).skip(1) =~= file@.subrange(m + 1, n as int));
        Some(String::from_str(file.substring_char(m + 1, n)))
    } else {
        None
    }
}

} // verus!
