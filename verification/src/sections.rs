//! Section hierarchy: the nested tree of a project's sections, the leaves
//! below a section and the subtree that a clone copies. Sections are given as
//! a flat list; identifiers are 128-bit UUID values.

use vstd::prelude::*;
use crate::duration::Moment;
use std::collections::{HashMap, HashSet};

verus! {

/// A section of a project (block, floor, apartment, room ...).
#[derive(Debug)]
pub struct Section {
    pub id: u128,
    pub workspace_id: u128,
    pub project_id: u128,
    pub parent_id: Option<u128>,
    pub name: String,
    pub code: Option<String>,
    pub section_type: Option<String>,
    pub sort_order: i64,
    pub created_at: Moment,
    pub updated_at: Moment,
    pub deleted_at: Option<Moment>,
}

fn copy_text(s: &Option<String>) -> (r: Option<String>)
    ensures
        r == *s,
{
    match s {
        Some(t) => Some(t.clone()),
        None => None,
    }
}

impl Section {
    /// An identical copy.
    pub fn duplicate(&self) -> (r: Section)
        ensures
            r == *self,
    {
        Section {
            id: self.id,
            workspace_id: self.workspace_id,
            project_id: self.project_id,
            parent_id: self.parent_id,
            name: self.name.clone(),
            code: copy_text(&self.code),
            section_type: copy_text(&self.section_type),
            sort_order: self.sort_order,
            created_at: self.created_at,
            updated_at: self.updated_at,
            deleted_at: self.deleted_at,
        }
    }
}

impl Clone for Section {
    fn clone(&self) -> (r: Section)
        ensures
            r == *self,
    {
        self.duplicate()
    }
}

/// Some section of the list has identifier `x`.
pub open spec fn has_id(s: Seq<Section>, x: u128) -> bool {
    exists|j: int| 0 <= j < s.len() && #[trigger] s[j].id == x
}

/// Indices `i < n`, in order, of the sections whose parent is `x`.
pub open spec fn children_below(s: Seq<Section>, x: u128, n: nat) -> Seq<int>
    decreases n,
{
    if n == 0 {
        Seq::empty()
    } else {
        let prev = children_below(s, x, (n - 1) as nat);
        if s[n - 1].parent_id == Some(x) {
            prev.push(n - 1)
        } else {
            prev
        }
    }
}

/// Indices, in list order, of the sections whose parent is `x`.
pub open spec fn children_idx(s: Seq<Section>, x: u128) -> Seq<int> {
    children_below(s, x, s.len())
}

/// A section is shown at the top level when it has no parent or its parent
/// is not in the list (deleted or from elsewhere): nothing is lost.
pub open spec fn is_top_level(s: Seq<Section>, i: int) -> bool {
    match s[i].parent_id {
        None => true,
        Some(p) => !has_id(s, p),
    }
}

/// Indices `i < n`, in order, of the top-level sections.
pub open spec fn roots_below(s: Seq<Section>, n: nat) -> Seq<int>
    decreases n,
{
    if n == 0 {
        Seq::empty()
    } else {
        let prev = roots_below(s, (n - 1) as nat);
        if is_top_level(s, n - 1) {
            prev.push(n - 1)
        } else {
            prev
        }
    }
}

/// The tree of a project's sections over the flat list: `roots` and each
/// `children[j]` hold indices into that list, in list order.
#[derive(Debug)]
pub struct SectionTree {
    pub project_id: u128,
    pub total: usize,
    pub roots: Vec<usize>,
    pub children: Vec<Vec<usize>>,
}

pub open spec fn as_ints(v: Seq<usize>) -> Seq<int> {
    v.map_values(|x: usize| x as int)
}

/// Indices of the sections whose parent is `x`.
pub fn children_of(sections: &[Section], x: u128) -> (r: Vec<usize>)
    ensures
        as_ints(r@) == children_idx(sections@, x),
        forall|k: int| 0 <= k < r@.len() ==> r@[k] < sections@.len(),
{
    let n = sections.len();
    let mut r: Vec<usize> = Vec::new();
    let mut i: usize = 0;
    while i < n
        invariant
            n == sections@.len(),
            i <= n,
            as_ints(r@) == children_below(sections@, x, i as nat),
            forall|k: int| 0 <= k < r@.len() ==> r@[k] < i,
        decreases n - i,
    {
        if sections[i].parent_id == Some(x) {
            r.push(i);
        }
        proof {
            assert(as_ints(r@) =~= children_below(sections@, x, (i + 1) as nat));
        }
        i = i + 1;
    }
    r
}

/// The identifiers of the list, as a set.
fn id_set(sections: &[Section]) -> (r: HashSet<u128>)
    ensures
        forall|x: u128| r@.contains(x) <==> has_id(sections@, x),
{
    let n = sections.len();
    let mut ids: HashSet<u128> = HashSet::new();
    let mut i: usize = 0;
    while i < n
        invariant
            n == sections@.len(),
            i <= n,
            forall|x: u128| ids@.contains(x) <==> has_id(sections@.subrange(0, i as int), x),
        decreases n - i,
    {
        let ghost pre = sections@.subrange(0, i as int);
        let ghost cur = sections@.subrange(0, i + 1);
        ids.insert(sections[i].id);
        proof {
            assert forall|x: u128| ids@.contains(x) <==> has_id(cur, x) by {
                if x == sections@[i as int].id {
                    assert(cur[i as int].id == x);
                }
                if has_id(pre, x) {
                    let j = choose|j: int| 0 <= j < pre.len() && #[trigger] pre[j].id == x;
                    assert(cur[j].id == x);
                }
                if has_id(cur, x) && x != sections@[i as int].id {
                    let j = choose|j: int| 0 <= j < cur.len() && #[trigger] cur[j].id == x;
                    assert(pre[j].id == x);
                }
            }
        }
        i = i + 1;
    }
    assert(sections@.subrange(0, n as int) =~= sections@);
    ids
}

/// `index` holds, for every parent identifier, the indices below `n` of its
/// children in list order; an identifier without children may be absent.
pub open spec fn indexes_children(index: Map<u128, Vec<usize>>, s: Seq<Section>, n: nat) -> bool {
    &&& n <= s.len()
    &&& forall|x: u128| #[trigger] index.contains_key(x) ==> as_ints(index[x]@) == children_below(s, x, n)
    &&& forall|x: u128| !#[trigger] index.contains_key(x) ==> children_below(s, x, n).len() == 0
}

proof fn lemma_children_below_lt(s: Seq<Section>, x: u128, n: nat)
    requires
        n <= s.len(),
    ensures
        forall|k: int| 0 <= k < children_below(s, x, n).len() ==> 0 <= #[trigger] children_below(s, x, n)[k] < n,
    decreases n,
{
    if n > 0 {
        lemma_children_below_lt(s, x, (n - 1) as nat);
        let prev = children_below(s, x, (n - 1) as nat);
        if s[n - 1].parent_id == Some(x) {
            assert forall|k: int| 0 <= k < prev.push(n - 1).len() implies 0 <= #[trigger] prev.push(n - 1)[k] < n by {
                if k < prev.len() {
                    assert(prev.push(n - 1)[k] == prev[k]);
                }
            }
        }
    }
}

/// The children of every section, indexed by parent identifier.
pub fn child_index(sections: &[Section]) -> (r: HashMap<u128, Vec<usize>>)
    ensures
        indexes_children(r@, sections@, sections@.len() as nat),
{
    let n = sections.len();
    let mut index: HashMap<u128, Vec<usize>> = HashMap::new();
    let mut i: usize = 0;
    while i < n
        invariant
            n == sections@.len(),
            i <= n,
            indexes_children(index@, sections@, i as nat),
        decreases n - i,
    {
        let ghost old_index = index@;
        match sections[i].parent_id {
            Some(p) => {
                let mut v = match index.remove(&p) {
                    Some(v) => v,
                    None => Vec::new(),
                };
                proof {
                    assert(as_ints(v@) == children_below(sections@, p, i as nat));
                }
                v.push(i);
                proof {
                    assert(as_ints(v@) =~= children_below(sections@, p, (i + 1) as nat));
                }
                index.insert(p, v);
            },
            None => {},
        }
        proof {
            let s = sections@;
            assert forall|x: u128| #[trigger] index@.contains_key(x) implies as_ints(index@[x]@) == children_below(s, x, (i + 1) as nat) by {
                if s[i as int].parent_id != Some(x) {
                    assert(old_index.contains_key(x));
                }
            }
            assert forall|x: u128| !#[trigger] index@.contains_key(x) implies children_below(s, x, (i + 1) as nat).len() == 0 by {
                assert(!old_index.contains_key(x));
            }
        }
        i = i + 1;
    }
    index
}

/// Indices of the sections whose parent is `x`, read from the index.
pub fn children_in(index: &HashMap<u128, Vec<usize>>, sections: &[Section], x: u128) -> (r: Vec<usize>)
    requires
        indexes_children(index@, sections@, sections@.len() as nat),
    ensures
        as_ints(r@) == children_idx(sections@, x),
        forall|k: int| 0 <= k < r@.len() ==> r@[k] < sections@.len(),
{
    proof {
        lemma_children_below_lt(sections@, x, sections@.len() as nat);
    }
    match index.get(&x) {
        Some(v) => {
            let mut r: Vec<usize> = Vec::new();
            let mut k: usize = 0;
            while k < v.len()
                invariant
                    k <= v@.len(),
                    r@ == v@.subrange(0, k as int),
                decreases v@.len() - k,
            {
                r.push(v[k]);
                k = k + 1;
                assert(r@ =~= v@.subrange(0, k as int));
            }
            assert(v@.subrange(0, v@.len() as int) =~= v@);
            proof {
                assert forall|k: int| 0 <= k < r@.len() implies r@[k] < sections@.len() by {
                    assert(as_ints(r@)[k] == r@[k] as int);
                }
            }
            r
        },
        None => {
            let r: Vec<usize> = Vec::new();
            assert(as_ints(r@) =~= children_idx(sections@, x));
            r
        },
    }
}

/// Builds the section tree of a flat list. Sections whose parent is missing
/// from the list appear at the top level; every other section appears under
/// the section holding its parent's identifier.
pub fn build_tree(sections: &[Section]) -> (t: SectionTree)
    ensures
        t.total == sections@.len(),
        t.project_id == if sections@.len() > 0 { sections@[0].project_id } else { 0 },
        as_ints(t.roots@) == roots_below(sections@, sections@.len()),
        t.children@.len() == sections@.len(),
        forall|j: int| 0 <= j < sections@.len() ==> as_ints(#[trigger] t.children@[j]@) == children_idx(
            sections@,
            sections@[j].id,
        ),
{
    let n = sections.len();
    let ids = id_set(sections);
    let index = child_index(sections);
    let mut roots: Vec<usize> = Vec::new();
    let mut children: Vec<Vec<usize>> = Vec::new();
    let mut i: usize = 0;
    while i < n
        invariant
            n == sections@.len(),
            i <= n,
            forall|x: u128| ids@.contains(x) <==> has_id(sections@, x),
            indexes_children(index@, sections@, n as nat),
            as_ints(roots@) == roots_below(sections@, i as nat),
            children@.len() == i,
            forall|j: int| 0 <= j < i ==> as_ints(#[trigger] children@[j]@) == children_idx(
                sections@,
                sections@[j].id,
            ),
        decreases n - i,
    {
        let top = match sections[i].parent_id {
            None => true,
            Some(p) => !ids.contains(&p),
        };
        if top {
            roots.push(i);
        }
        proof {
            assert(as_ints(roots@) =~= roots_below(sections@, (i + 1) as nat));
        }
        let c = children_in(&index, sections, sections[i].id);
        children.push(c);
        i = i + 1;
    }
    let project_id = if n > 0 { sections[0].project_id } else { 0 };
    SectionTree { project_id, total: n, roots, children }
}

proof fn lemma_roots_member(s: Seq<Section>, n: nat, k: int)
    requires
        n <= s.len(),
    ensures
        roots_below(s, n).contains(k) <==> (0 <= k < n && is_top_level(s, k)),
    decreases n,
{
    if n > 0 {
        lemma_roots_member(s, (n - 1) as nat, k);
        let prev = roots_below(s, (n - 1) as nat);
        if is_top_level(s, n - 1) {
            let pp = prev.push(n - 1);
            assert(pp[prev.len() as int] == n - 1);
            if pp.contains(k) {
                let w = choose|w: int| 0 <= w < pp.len() && #[trigger] pp[w] == k;
                if w < prev.len() {
                    assert(prev[w] == k);
                }
            }
            if prev.contains(k) {
                let w = choose|w: int| 0 <= w < prev.len() && #[trigger] prev[w] == k;
                assert(pp[w] == k);
            }
        }
    }
}

proof fn lemma_children_member(s: Seq<Section>, x: u128, n: nat, k: int)
    requires
        n <= s.len(),
    ensures
        children_below(s, x, n).contains(k) <==> (0 <= k < n && s[k].parent_id == Some(x)),
    decreases n,
{
    if n > 0 {
        lemma_children_member(s, x, (n - 1) as nat, k);
        let prev = children_below(s, x, (n - 1) as nat);
        if s[n - 1].parent_id == Some(x) {
            let pp = prev.push(n - 1);
            assert(pp[prev.len() as int] == n - 1);
            if pp.contains(k) {
                let w = choose|w: int| 0 <= w < pp.len() && #[trigger] pp[w] == k;
                if w < prev.len() {
                    assert(prev[w] == k);
                }
            }
            if prev.contains(k) {
                let w = choose|w: int| 0 <= w < prev.len() && #[trigger] prev[w] == k;
                assert(pp[w] == k);
            }
        }
    }
}

/// The tree loses no section: each section of the list is shown at the top
/// level or under a section of the list whose child it is, and a top-level
/// section is under no section.
pub proof fn lemma_tree_keeps_every_section(s: Seq<Section>, k: int)
    requires
        0 <= k < s.len(),
    ensures
        roots_below(s, s.len()).contains(k) || (exists|j: int|
            0 <= j < s.len() && #[trigger] children_idx(s, s[j].id).contains(k)),
        roots_below(s, s.len()).contains(k) ==> forall|j: int|
            0 <= j < s.len() ==> !#[trigger] children_idx(s, s[j].id).contains(k),
{
    lemma_roots_member(s, s.len(), k);
    match s[k].parent_id {
        None => {
            assert forall|j: int| 0 <= j < s.len() implies !#[trigger] children_idx(s, s[j].id).contains(k) by {
                lemma_children_member(s, s[j].id, s.len(), k);
            }
        },
        Some(p) => {
            if has_id(s, p) {
                let j = choose|j: int| 0 <= j < s.len() && #[trigger] s[j].id == p;
                lemma_children_member(s, s[j].id, s.len(), k);
                assert(children_idx(s, s[j].id).contains(k));
            } else {
                assert forall|j: int| 0 <= j < s.len() implies !#[trigger] children_idx(s, s[j].id).contains(k) by {
                    lemma_children_member(s, s[j].id, s.len(), k);
                }
            }
        },
    }
}

} // verus!
