//! Planning of section rows: the breadth-first subtree that a clone copies,
//! the rows of each copy (fresh identifiers, parents mapped into the copy),
//! the numbered rows of the bulk generator and the checks around them.

use vstd::prelude::*;
use crate::sections::{Section, children_idx, as_ints};
use crate::errors::{DomainError, validation, is_validation_err, is_conflict_err};
use crate::render::{
    occurs_in, contains_text, spec_render, render_format, spec_clone_name, derive_clone_name,
    clone_name_fits, clone_name_fits_check, decimal, int_text, nat_to_string, int_to_string,
};
use crate::text::{owned, join2, trim, trimmed, is_blank};
use crate::naming::{uppercase, unicode_uppercase};
use crate::duration::Moment;
use crate::ids::new_id;
use std::collections::HashMap;

verus! {

/// The view of an optional text.
pub open spec fn opt_text(o: Option<String>) -> Option<Seq<char>> {
    match o {
        Some(t) => Some(t@),
        None => None,
    }
}

fn copy_opt(o: &Option<String>) -> (r: Option<String>)
    ensures
        opt_text(r) == opt_text(*o),
{
    match o {
        Some(t) => Some(t.clone()),
        None => None,
    }
}

/// A section row prepared before it is inserted. `id: None` leaves the
/// choice of identifier to the store; clones fix it so that the rows of a
/// copy can point at each other.
#[derive(Debug)]
pub struct NewSection {
    pub project_id: u128,
    pub workspace_id: u128,
    pub parent_id: Option<u128>,
    pub name: String,
    pub code: Option<String>,
    pub section_type: Option<String>,
    pub sort_order: i64,
    pub id: Option<u128>,
}

/// The plain value of a prepared row.
pub struct RowModel {
    pub project_id: u128,
    pub workspace_id: u128,
    pub parent_id: Option<u128>,
    pub name: Seq<char>,
    pub code: Option<Seq<char>>,
    pub section_type: Option<Seq<char>>,
    pub sort_order: int,
    pub id: Option<u128>,
}

impl View for NewSection {
    type V = RowModel;

    open spec fn view(&self) -> RowModel {
        RowModel {
            project_id: self.project_id,
            workspace_id: self.workspace_id,
            parent_id: self.parent_id,
            name: self.name@,
            code: opt_text(self.code),
            section_type: opt_text(self.section_type),
            sort_order: self.sort_order as int,
            id: self.id,
        }
    }
}

/// The views of a list of prepared rows.
pub open spec fn rows_view(v: Seq<NewSection>) -> Seq<RowModel> {
    v.map_values(|r: NewSection| r@)
}

// ---------------------------------------------------------------------------
// The subtree below a section, breadth first
// ---------------------------------------------------------------------------

/// The identifier taken from the queue at position `p` of the walk: the
/// source itself at position 0, else the section found `p`-th.
pub open spec fn walk_id(s: Seq<Section>, root_id: u128, order: Seq<int>, p: int) -> u128 {
    if p == 0 {
        root_id
    } else {
        s[order[p - 1]].id
    }
}

/// The breadth-first walk below `root_id` over the flat list `s` after `k`
/// queue positions were taken: indices into `s` of the sections found so
/// far, in the order found. Taking a position appends, in list order, the
/// sections whose parent is that position's identifier.
pub open spec fn walk_after(s: Seq<Section>, root_id: u128, k: nat) -> Seq<int>
    decreases k,
{
    if k == 0 {
        Seq::empty()
    } else {
        let prev = walk_after(s, root_id, (k - 1) as nat);
        if k - 1 <= prev.len() {
            prev + children_idx(s, walk_id(s, root_id, prev, k - 1))
        } else {
            prev
        }
    }
}

/// The walk has emptied its queue within `bound` positions.
pub open spec fn walk_done_within(s: Seq<Section>, root_id: u128, bound: nat) -> bool {
    walk_after(s, root_id, bound).len() < bound
}

/// The sections of the subtree: the source, then the walk below it.
pub open spec fn subtree_of(source: Section, s: Seq<Section>, bound: nat) -> Seq<Section> {
    seq![source] + walk_after(s, source.id, bound).map_values(|i: int| s[i])
}

proof fn lemma_children_below_bounds(s: Seq<Section>, x: u128, n: nat)
    requires
        n <= s.len(),
    ensures
        forall|k: int| 0 <= k < crate::sections::children_below(s, x, n).len() ==> 0 <= #[trigger] crate::sections::children_below(s, x, n)[k] < n,
        forall|k: int| 0 <= k < crate::sections::children_below(s, x, n).len() ==> s[#[trigger] crate::sections::children_below(s, x, n)[k]].parent_id == Some(x),
    decreases n,
{
    if n > 0 {
        lemma_children_below_bounds(s, x, (n - 1) as nat);
    }
}

proof fn lemma_walk_bounds(s: Seq<Section>, root_id: u128, k: nat)
    ensures
        forall|i: int| 0 <= i < walk_after(s, root_id, k).len() ==> 0 <= #[trigger] walk_after(s, root_id, k)[i] < s.len(),
        forall|i: int| 0 <= i < walk_after(s, root_id, k).len() ==> (#[trigger] s[walk_after(s, root_id, k)[i]]).parent_id is Some,
    decreases k,
{
    if k > 0 {
        lemma_walk_bounds(s, root_id, (k - 1) as nat);
        let prev = walk_after(s, root_id, (k - 1) as nat);
        if k - 1 <= prev.len() {
            let c = children_idx(s, walk_id(s, root_id, prev, k - 1));
            lemma_children_below_bounds(s, walk_id(s, root_id, prev, k - 1), s.len());
            assert forall|i: int| 0 <= i < (prev + c).len() implies 0 <= #[trigger] (prev + c)[i] < s.len()
                && s[(prev + c)[i]].parent_id is Some by {
                if i >= prev.len() {
                    assert((prev + c)[i] == c[i - prev.len()]);
                }
            }
        }
    }
}

/// Once the queue is empty the walk stays as it is.
proof fn lemma_walk_stable(s: Seq<Section>, root_id: u128, a: nat, b: nat)
    requires
        walk_after(s, root_id, a).len() < a,
        a <= b,
    ensures
        walk_after(s, root_id, b) == walk_after(s, root_id, a),
    decreases b - a,
{
    if b > a {
        lemma_walk_stable(s, root_id, a, (b - 1) as nat);
    }
}

/// Every node after the first has a parent, and that parent is an earlier
/// node of the list.
pub open spec fn parents_precede(sub: Seq<Section>) -> bool {
    forall|j: int| 1 <= j < sub.len() ==> (#[trigger] sub[j]).parent_id is Some
        && exists|j2: int| 0 <= j2 < j && sub[j2].id == sub[j].parent_id->0
}

/// The parent of the `i`-th section found by the walk is the identifier
/// taken at queue position `p`, no later than `i`.
pub open spec fn parent_at(s: Seq<Section>, root_id: u128, w: Seq<int>, i: int, p: int) -> bool {
    0 <= p <= i && s[w[i]].parent_id == Some(walk_id(s, root_id, w, p))
}

proof fn walk_parent_pos(s: Seq<Section>, root_id: u128, k: nat, i: int) -> (p: int)
    requires
        0 <= i < walk_after(s, root_id, k).len(),
    ensures
        parent_at(s, root_id, walk_after(s, root_id, k), i, p),
        p < k,
    decreases k,
{
    if k == 0 {
        assert(walk_after(s, root_id, k).len() == 0);
        0
    } else {
        let prev = walk_after(s, root_id, (k - 1) as nat);
        let cur = walk_after(s, root_id, k);
        if k - 1 <= prev.len() {
            let x = walk_id(s, root_id, prev, k - 1);
            let c = children_idx(s, x);
            lemma_children_below_bounds(s, x, s.len());
            assert(cur == prev + c);
            if i < prev.len() {
                let p = walk_parent_pos(s, root_id, (k - 1) as nat, i);
                assert(cur[i] == prev[i]);
                if p > 0 {
                    assert(cur[p - 1] == prev[p - 1]);
                }
                assert(walk_id(s, root_id, cur, p) == walk_id(s, root_id, prev, p));
                p
            } else {
                assert(cur[i] == c[i - prev.len()]);
                let p = k - 1;
                if p > 0 {
                    assert(cur[p - 1] == prev[p - 1]);
                }
                assert(walk_id(s, root_id, cur, p) == x);
                p
            }
        } else {
            walk_parent_pos(s, root_id, (k - 1) as nat, i)
        }
    }
}

/// No two sections of the list share an identifier.
pub open spec fn ids_distinct(s: Seq<Section>) -> bool {
    forall|a: int, b: int| 0 <= a < s.len() && 0 <= b < s.len() && a != b ==> (#[trigger] s[a]).id != (#[trigger] s[b]).id
}

/// `depth` ranks every section above its parent, so that parent links never
/// run in a circle.
pub open spec fn ranked_parents(s: Seq<Section>, depth: spec_fn(u128) -> nat) -> bool {
    forall|i: int| 0 <= i < s.len() && (#[trigger] s[i]).parent_id is Some ==> depth(s[i].id) > depth(s[i].parent_id->0)
}

proof fn lemma_children_distinct(s: Seq<Section>, x: u128, n: nat)
    requires
        n <= s.len(),
    ensures
        crate::sections::children_below(s, x, n).no_duplicates(),
    decreases n,
{
    if n > 0 {
        lemma_children_distinct(s, x, (n - 1) as nat);
        lemma_children_below_bounds(s, x, (n - 1) as nat);
    }
}

/// Every section that the walk finds ranks above the source.
proof fn lemma_walk_below_root(s: Seq<Section>, root_id: u128, depth: spec_fn(u128) -> nat, k: nat, i: int)
    requires
        ranked_parents(s, depth),
        0 <= i < walk_after(s, root_id, k).len(),
    ensures
        depth(s[walk_after(s, root_id, k)[i]].id) > depth(root_id),
    decreases i,
{
    let w = walk_after(s, root_id, k);
    lemma_walk_bounds(s, root_id, k);
    let p = walk_parent_pos(s, root_id, k, i);
    assert(s[w[i]].parent_id is Some);
    if p > 0 {
        lemma_walk_below_root(s, root_id, depth, k, p - 1);
    }
}

proof fn lemma_walk_distinct(s: Seq<Section>, root_id: u128, depth: spec_fn(u128) -> nat, k: nat)
    requires
        ids_distinct(s),
        ranked_parents(s, depth),
    ensures
        walk_after(s, root_id, k).no_duplicates(),
    decreases k,
{
    if k > 0 {
        let prev = walk_after(s, root_id, (k - 1) as nat);
        lemma_walk_distinct(s, root_id, depth, (k - 1) as nat);
        if k - 1 <= prev.len() {
            let x = walk_id(s, root_id, prev, k - 1);
            let c = children_idx(s, x);
            lemma_children_distinct(s, x, s.len());
            lemma_children_below_bounds(s, x, s.len());
            lemma_walk_bounds(s, root_id, (k - 1) as nat);
            assert forall|i: int, t: int| 0 <= i < prev.len() && 0 <= t < c.len() implies prev[i] != c[t] by {
                if prev[i] == c[t] {
                    let p = walk_parent_pos(s, root_id, (k - 1) as nat, i);
                    assert(s[c[t]].parent_id == Some(x));
                    assert(walk_id(s, root_id, prev, p) == x);
                    if p == 0 {
                        lemma_walk_below_root(s, root_id, depth, (k - 1) as nat, k - 2);
                    } else {
                        assert(s[prev[p - 1]].id == s[prev[k - 2]].id);
                        assert(prev[p - 1] != prev[k - 2]);
                    }
                }
            }
            vstd::seq_lib::lemma_no_dup_in_concat(prev, c);
        }
    }
}

/// Where identifiers are unique and parent links never run in a circle, the
/// breadth-first walk below any section empties its queue within one more
/// position than the list has sections: a clone then always finds its
/// subtree.
pub proof fn lemma_clone_walk_finishes(source: Section, all: Seq<Section>, depth: spec_fn(u128) -> nat)
    requires
        ids_distinct(all),
        ranked_parents(all, depth),
    ensures
        walk_done_within(all, source.id, (all.len() + 1) as nat),
{
    let n = all.len();
    let w = walk_after(all, source.id, (n + 1) as nat);
    lemma_walk_distinct(all, source.id, depth, (n + 1) as nat);
    lemma_walk_bounds(all, source.id, (n + 1) as nat);
    w.unique_seq_to_set();
    vstd::set_lib::lemma_int_range(0, n as int);
    assert(w.to_set().subset_of(vstd::set_lib::set_int_range(0, n as int)));
    vstd::set_lib::lemma_len_subset(w.to_set(), vstd::set_lib::set_int_range(0, n as int));
}

/// The subtree that a clone copies: the source section followed, breadth
/// first, by every section below it. The first node is the source; every
/// later node's parent is an earlier node.
#[derive(Debug)]
pub struct CloneSubtree {
    nodes: Vec<Section>,
}

impl CloneSubtree {
    #[verifier::type_invariant]
    spec fn well_formed(self) -> bool {
        &&& self.nodes@.len() >= 1
        &&& parents_precede(self.nodes@)
    }

    /// The nodes, source first.
    pub closed spec fn view(&self) -> Seq<Section> {
        self.nodes@
    }

    /// Number of sections in the subtree, the source included.
    pub fn len(&self) -> (r: usize)
        ensures
            r == self.view().len(),
    {
        self.nodes.len()
    }

    /// The nodes, source first, then breadth first.
    pub fn nodes(&self) -> (r: &[Section])
        ensures
            r@ == self.view(),
    {
        self.nodes.as_slice()
    }
}

/// The subtree below `source` over the project's flat section list, walked
/// breadth first with children in list order, if the walk empties its queue
/// within `bound` positions (`None` otherwise).
pub fn walk_subtree(source: &Section, all: &[Section], bound: usize) -> (r: Option<CloneSubtree>)
    ensures
        r is Some <==> walk_done_within(all@, source.id, bound as nat),
        r matches Some(t) ==> t.view() == subtree_of(*source, all@, bound as nat) && parents_precede(t.view()),
{
    let ghost s = all@;
    let index = crate::sections::child_index(all);
    let mut order: Vec<usize> = Vec::new();
    let mut p: usize = 0;
    while p <= order.len() && p < bound
        invariant
            s == all@,
            crate::sections::indexes_children(index@, s, s.len() as nat),
            as_ints(order@) == walk_after(s, source.id, p as nat),
            p <= bound,
            forall|i: int| 0 <= i < order@.len() ==> order@[i] < s.len(),
        decreases bound - p,
    {
        let id = if p == 0 {
            source.id
        } else {
            all[order[p - 1]].id
        };
        proof {
            assert(id == walk_id(s, source.id, walk_after(s, source.id, p as nat), p as int));
        }
        let c = crate::sections::children_in(&index, all, id);
        let ghost before = order@;
        let mut q: usize = 0;
        while q < c.len()
            invariant
                q <= c@.len(),
                order@ == before + c@.subrange(0, q as int),
                forall|i: int| 0 <= i < c@.len() ==> c@[i] < s.len(),
                forall|i: int| 0 <= i < before.len() ==> before[i] < s.len(),
                s == all@,
            decreases c@.len() - q,
        {
            order.push(c[q]);
            q = q + 1;
            assert(order@ =~= before + c@.subrange(0, q as int));
        }
        proof {
            assert(c@.subrange(0, c@.len() as int) =~= c@);
            assert(as_ints(order@) =~= as_ints(before) + as_ints(c@));
            assert(as_ints(order@) =~= walk_after(s, source.id, (p + 1) as nat));
        }
        p = p + 1;
    }
    if p <= order.len() {
        // the queue still held positions after `bound` of them were taken
        return None;
    }
    proof {
        lemma_walk_stable(s, source.id, p as nat, bound as nat);
        lemma_walk_bounds(s, source.id, bound as nat);
        assert forall|k: int| 0 <= k < order@.len() implies s[order@[k] as int].parent_id is Some by {
            assert(walk_after(s, source.id, bound as nat)[k] == order@[k] as int);
        }
    }
    let mut nodes: Vec<Section> = Vec::new();
    nodes.push(source.duplicate());
    let mut i: usize = 0;
    while i < order.len()
        invariant
            s == all@,
            i <= order@.len(),
            as_ints(order@) == walk_after(s, source.id, bound as nat),
            forall|k: int| 0 <= k < order@.len() ==> order@[k] < s.len(),
            forall|k: int| 0 <= k < order@.len() ==> s[order@[k] as int].parent_id is Some,
            nodes@ == seq![*source] + walk_after(s, source.id, bound as nat).subrange(0, i as int).map_values(|x: int| s[x]),
            nodes@.len() == i + 1,
        decreases order@.len() - i,
    {
        nodes.push(all[order[i]].duplicate());
        proof {
            assert(walk_after(s, source.id, bound as nat)[i as int] == order@[i as int] as int);
        }
        i = i + 1;
        assert(nodes@ =~= seq![*source] + walk_after(s, source.id, bound as nat).subrange(0, i as int).map_values(|x: int| s[x]));
    }
    assert(walk_after(s, source.id, bound as nat).subrange(0, i as int) =~= walk_after(s, source.id, bound as nat));
    proof {
        let w = walk_after(s, source.id, bound as nat);
        assert forall|j: int| 1 <= j < nodes@.len() implies (#[trigger] nodes@[j]).parent_id is Some
            && exists|j2: int| 0 <= j2 < j && nodes@[j2].id == nodes@[j].parent_id->0 by {
            assert(nodes@[j] == s[w[j - 1]]);
            assert(w[j - 1] == order@[j - 1] as int);
            let p = walk_parent_pos(s, source.id, bound as nat, j - 1);
            if p > 0 {
                assert(nodes@[p] == s[w[p - 1]]);
            }
            assert(nodes@[p].id == walk_id(s, source.id, w, p));
        }
    }
    Some(CloneSubtree { nodes })
}

/// The subtree that a clone of `source` copies. `None` only when the parent
/// links below the source run in a circle, so that the walk would not end.
pub fn clone_subtree(source: &Section, all: &[Section]) -> (r: Option<CloneSubtree>)
    ensures
        r is Some <==> walk_done_within(all@, source.id, if all@.len() < usize::MAX { (all@.len() + 1) as nat } else { all@.len() }),
        r matches Some(t) ==> t.view() == subtree_of(*source, all@, if all@.len() < usize::MAX { (all@.len() + 1) as nat } else { all@.len() })
            && parents_precede(t.view()),
{
    let n = all.len();
    let bound = if n < usize::MAX { n + 1 } else { n };
    walk_subtree(source, all, bound)
}

// ---------------------------------------------------------------------------
// Leaves below a section
// ---------------------------------------------------------------------------

/// The first section of the list with identifier `x`, if any.
pub open spec fn first_with_id(s: Seq<Section>, x: u128) -> Option<int>
    decreases s.len(),
{
    if s.len() == 0 {
        None
    } else {
        match first_with_id(s.drop_last(), x) {
            Some(i) => Some(i),
            None => if s.last().id == x {
                Some(s.len() - 1)
            } else {
                None
            },
        }
    }
}

/// Indices of the leaves met at the first `k` queue positions of the walk
/// `w` below `root_id`: a position whose identifier has no children is a
/// leaf, shown by the first section carrying that identifier.
pub open spec fn leaf_positions(s: Seq<Section>, root_id: u128, w: Seq<int>, k: nat) -> Seq<int>
    decreases k,
{
    if k == 0 {
        Seq::empty()
    } else {
        let prev = leaf_positions(s, root_id, w, (k - 1) as nat);
        let id = walk_id(s, root_id, w, k - 1);
        if children_idx(s, id).len() == 0 && first_with_id(s, id) is Some {
            prev.push(first_with_id(s, id)->0)
        } else {
            prev
        }
    }
}

/// The leaves below `root` (the root itself when it has no children), in
/// the order the breadth-first walk meets them.
pub open spec fn leaves_of(root: Section, s: Seq<Section>, bound: nat) -> Seq<Section> {
    let w = walk_after(s, root.id, bound);
    leaf_positions(s, root.id, w, w.len() + 1).map_values(|i: int| s[i])
}

fn find_first(all: &[Section], x: u128) -> (r: Option<usize>)
    ensures
        r matches Some(i) ==> first_with_id(all@, x) == Some(i as int) && i < all@.len(),
        r is None ==> first_with_id(all@, x) is None,
{
    let mut i: usize = 0;
    while i < all.len()
        invariant
            i <= all@.len(),
            first_with_id(all@.subrange(0, i as int), x) is None,
        decreases all@.len() - i,
    {
        proof {
            assert(all@.subrange(0, i + 1).drop_last() =~= all@.subrange(0, i as int));
        }
        if all[i].id == x {
            proof {
                lemma_first_with_id_prefix(all@, x, i as int + 1);
            }
            return Some(i);
        }
        i = i + 1;
    }
    assert(all@.subrange(0, all@.len() as int) =~= all@);
    None
}

/// Once a prefix holds the identifier, the whole list finds it there.
proof fn lemma_first_with_id_prefix(s: Seq<Section>, x: u128, n: int)
    requires
        0 < n <= s.len(),
        first_with_id(s.subrange(0, n), x) is Some,
    ensures
        first_with_id(s, x) == first_with_id(s.subrange(0, n), x),
    decreases s.len() - n,
{
    if n < s.len() {
        assert(s.subrange(0, n + 1).drop_last() =~= s.subrange(0, n));
        lemma_first_with_id_prefix(s, x, n + 1);
    } else {
        assert(s.subrange(0, n) =~= s);
    }
}

/// The leaf sections below `root` over the project's flat list, in the
/// order of a breadth-first walk; `None` only when the parent links below
/// the root run in a circle (the walk would not end).
pub fn leaves_under(sections: &[Section], root: &Section) -> (r: Option<Vec<Section>>)
    ensures
        r is Some <==> walk_done_within(sections@, root.id, if sections@.len() < usize::MAX { (sections@.len() + 1) as nat } else { sections@.len() }),
        r matches Some(v) ==> v@ == leaves_of(*root, sections@, if sections@.len() < usize::MAX { (sections@.len() + 1) as nat } else { sections@.len() }),
{
    let n = sections.len();
    let bound = if n < usize::MAX { n + 1 } else { n };
    let ghost s = sections@;
    let ghost w = walk_after(s, root.id, bound as nat);
    let walked = walk_subtree(root, sections, bound);
    match walked {
        None => None,
        Some(t) => {
            let nodes = t.nodes();
            let index = crate::sections::child_index(sections);
            let mut out: Vec<Section> = Vec::new();
            let ghost mut pos: Seq<int> = Seq::empty();
            let mut j: usize = 0;
            while j < nodes.len()
                invariant
                    s == sections@,
                    crate::sections::indexes_children(index@, s, s.len() as nat),
                    nodes@ == subtree_of(*root, s, bound as nat),
                    w == walk_after(s, root.id, bound as nat),
                    nodes@.len() == w.len() + 1,
                    j <= nodes@.len(),
                    pos == leaf_positions(s, root.id, w, j as nat),
                    forall|q: int| 0 <= q < pos.len() ==> 0 <= #[trigger] pos[q] < s.len(),
                    out@ == pos.map_values(|i: int| s[i]),
                decreases nodes@.len() - j,
            {
                let id = nodes[j].id;
                proof {
                    if j > 0 {
                        assert(nodes@[j as int] == s[w[j - 1]]);
                    }
                    assert(id == walk_id(s, root.id, w, j as int));
                }
                let kids = crate::sections::children_in(&index, sections, id);
                assert(as_ints(kids@).len() == kids@.len());
                let ghost old_pos = pos;
                assert(leaf_positions(s, root.id, w, (j + 1) as nat) == (if children_idx(s, id).len() == 0 && first_with_id(s, id) is Some {
                    old_pos.push(first_with_id(s, id)->0)
                } else {
                    old_pos
                }));
                if kids.len() == 0 {
                    match find_first(sections, id) {
                        Some(i) => {
                            out.push(sections[i].duplicate());
                            proof {
                                pos = pos.push(i as int);
                            }
                        },
                        None => {},
                    }
                }
                assert(out@ =~= pos.map_values(|i: int| s[i]));
                j = j + 1;
            }
            Some(out)
        },
    }
}

// ---------------------------------------------------------------------------
// Clone checks
// ---------------------------------------------------------------------------

/// Largest number of copies one clone request may ask for.
pub const MAX_CLONE_COUNT: i64 = 50;

/// Largest number of rows one clone request may create.
pub const MAX_CREATED_ROWS: usize = 2000;

/// The number of copies must lie in `1..=MAX_CLONE_COUNT`.
pub fn check_clone_count(count: i64) -> (r: Result<(), DomainError>)
    ensures
        r is Ok <==> 1 <= count <= 50,
        r is Err ==> is_validation_err(r, "Kopya adedi 1 ile 50 arasında olmalı."@),
{
    if count < 1 || count > MAX_CLONE_COUNT {
        return Err(validation("Kopya adedi 1 ile 50 arasında olmalı."));
    }
    Ok(())
}

/// The text of the error for a clone of `nodes` sections times `count`.
pub open spec fn too_large_message(nodes: nat, count: int) -> Seq<char> {
    "İşlem çok büyük: "@ + decimal(nodes) + " bölüm × "@ + int_text(count) + " kopya. Parçalayarak deneyin."@
}

impl CloneSubtree {
    /// A clone may create at most `MAX_CREATED_ROWS` rows in all.
    pub fn check_size(&self, count: i64) -> (r: Result<(), DomainError>)
        requires
            1 <= count <= 50,
        ensures
            r is Ok <==> self.view().len() * count <= 2000,
            r is Err ==> is_validation_err(r, too_large_message(self.view().len(), count as int)),
    {
        let n = self.nodes.len();
        let too_large = if n > MAX_CREATED_ROWS {
            true
        } else {
            assert((n as u64) * (count as u64) <= 100000) by (nonlinear_arith)
                requires n <= 2000, 1 <= count <= 50;
            (n as u64) * (count as u64) > MAX_CREATED_ROWS as u64
        };
        if too_large {
            proof {
                if n <= 2000 {
                    assert((n as u64) * (count as u64) == n * count) by (nonlinear_arith)
                        requires n <= 2000, 1 <= count <= 50;
                } else {
                    assert(n * count >= n) by (nonlinear_arith)
                        requires count >= 1, n >= 0;
                }
            }
            let mut m = owned("İşlem çok büyük: ");
            let a = nat_to_string(n as u64);
            m.append(a.as_str());
            m.append(" bölüm × ");
            let b = int_to_string(count);
            m.append(b.as_str());
            m.append(" kopya. Parçalayarak deneyin.");
            proof {
                reveal_strlit("İşlem çok büyük: ");
                reveal_strlit(" bölüm × ");
                reveal_strlit(" kopya. Parçalayarak deneyin.");
            }
            return Err(DomainError::Validation { message: m });
        }
        proof {
            assert((n as u64) * (count as u64) == n * count) by (nonlinear_arith)
                requires n <= 2000, 1 <= count <= 50;
        }
        Ok(())
    }
}

// ---------------------------------------------------------------------------
// Clone rows
// ---------------------------------------------------------------------------

/// A name format that holds the `{n}` placeholder.
pub open spec fn uses_format(name_format: Option<Seq<char>>) -> bool {
    name_format matches Some(f) && occurs_in(f, "{n}"@)
}

/// The name of the root of copy `k`: the format when it holds `{n}`, else
/// the name derived from the source's name.
pub open spec fn root_name(name: Seq<char>, k: int, name_format: Option<Seq<char>>) -> Seq<char> {
    if uses_format(name_format) {
        spec_render(name_format->0, k)
    } else {
        spec_clone_name(name, k)
    }
}

/// The last position before `j` whose section has identifier `x`.
pub open spec fn last_match(sub: Seq<Section>, x: u128, j: int) -> Option<int>
    decreases j,
{
    if j <= 0 {
        None
    } else if sub[j - 1].id == x {
        Some(j - 1)
    } else {
        last_match(sub, x, j - 1)
    }
}

/// A node of the subtree stands for the source (it carries its identifier).
pub open spec fn is_root_node(sub: Seq<Section>, j: int) -> bool {
    sub[j].id == sub[0].id
}

/// The identifier given to node `j` in a copy: `ids[0]` for the source,
/// `ids[j + 1]` for any other node.
pub open spec fn copy_id(sub: Seq<Section>, ids: Seq<u128>, j: int) -> u128 {
    if is_root_node(sub, j) {
        ids[0]
    } else {
        ids[j + 1]
    }
}

/// The parent of a non-root node in a copy: the copy of the source when its
/// parent is the source, else the copy of the last earlier node carrying
/// its parent's identifier (none when there is no such node).
pub open spec fn copy_parent(sub: Seq<Section>, ids: Seq<u128>, j: int) -> Option<u128> {
    let p = sub[j].parent_id->0;
    if p == sub[0].id {
        Some(ids[0])
    } else {
        match last_match(sub, p, j) {
            Some(j2) => Some(ids[j2 + 1]),
            None => None,
        }
    }
}

/// Row `j` of copy `k`. The copy of the source takes the source's parent,
/// the next sort order after `next_sort` and a numbered name and code;
/// every other node keeps its name, code and sort order and points into
/// the copy.
pub open spec fn copy_row(
    sub: Seq<Section>,
    k: int,
    j: int,
    ids: Seq<u128>,
    workspace_id: u128,
    next_sort: int,
    name_format: Option<Seq<char>>,
    code_format: Option<Seq<char>>,
) -> RowModel {
    let root = is_root_node(sub, j);
    RowModel {
        project_id: sub[0].project_id,
        workspace_id,
        parent_id: if root { sub[0].parent_id } else { copy_parent(sub, ids, j) },
        name: if root { root_name(sub[j].name@, k, name_format) } else { sub[j].name@ },
        code: if root {
            match code_format {
                Some(f) => Some(spec_render(f, k)),
                None => None,
            }
        } else {
            opt_text(sub[j].code)
        },
        section_type: opt_text(sub[j].section_type),
        sort_order: if root { next_sort + k } else { sub[j].sort_order as int },
        id: Some(copy_id(sub, ids, j)),
    }
}

/// The rows of copy `k`, one per node in subtree order.
pub open spec fn copy_rows(
    sub: Seq<Section>,
    k: int,
    ids: Seq<u128>,
    workspace_id: u128,
    next_sort: int,
    name_format: Option<Seq<char>>,
    code_format: Option<Seq<char>>,
) -> Seq<RowModel> {
    Seq::new(sub.len(), |j: int| copy_row(sub, k, j, ids, workspace_id, next_sort, name_format, code_format))
}

/// Copy `k` can be formed without leaving the 64-bit range.
pub open spec fn copy_fits(sub: Seq<Section>, k: int, next_sort: int, name_format: Option<Seq<char>>) -> bool {
    &&& i64::MIN <= next_sort + k <= i64::MAX
    &&& uses_format(name_format) || (forall|j: int|
        0 <= j < sub.len() && is_root_node(sub, j) ==> clone_name_fits(#[trigger] sub[j].name@, k))
}

proof fn lemma_last_match(sub: Seq<Section>, x: u128, j: int)
    requires
        0 <= j <= sub.len(),
    ensures
        match last_match(sub, x, j) {
            Some(j2) => 0 <= j2 < j && sub[j2].id == x,
            None => forall|i: int| 0 <= i < j ==> sub[i].id != x,
        },
    decreases j,
{
    if j > 0 && sub[j - 1].id != x {
        lemma_last_match(sub, x, j - 1);
    }
}

impl CloneSubtree {
    /// The rows of copy `k` of the subtree, given the fresh identifiers of
    /// the copy (`ids[0]` for the copy of the source, `ids[j + 1]` for node
    /// `j`).
    pub fn copy(
        &self,
        k: i64,
        ids: &[u128],
        workspace_id: u128,
        next_sort: i64,
        name_format: &Option<String>,
        code_format: &Option<String>,
    ) -> (r: Vec<NewSection>)
        requires
            ids@.len() == self.view().len() + 1,
            copy_fits(self.view(), k as int, next_sort as int, opt_text(*name_format)),
        ensures
            rows_view(r@) == copy_rows(
                self.view(),
                k as int,
                ids@,
                workspace_id,
                next_sort as int,
                opt_text(*name_format),
                opt_text(*code_format),
            ),
    {
        proof {
            use_type_invariant(self);
        }
        let sub = self.nodes.as_slice();
        let ghost spec_rows = copy_rows(
            self.view(),
            k as int,
            ids@,
            workspace_id,
            next_sort as int,
            opt_text(*name_format),
            opt_text(*code_format),
        );
        let m = sub.len();
        let source = &sub[0];
        let format_used = match name_format {
            Some(f) => contains_text(f.as_str(), "{n}"),
            None => false,
        };
        proof {
            reveal_strlit("{n}");
        }
        assert(format_used == uses_format(opt_text(*name_format)));
        let mut rows: Vec<NewSection> = Vec::new();
        // identifier of each node -> identifier of its copy
        let mut copied: HashMap<u128, u128> = HashMap::new();
        copied.insert(source.id, ids[0]);
        let mut j: usize = 0;
        while j < m
            invariant
                sub@ == self.view(),
                m == sub@.len(),
                m >= 1,
                source == sub@[0],
                ids@.len() == m + 1,
                j <= m,
                rows@.len() == j,
                copied@.contains_key(source.id) && copied@[source.id] == ids@[0],
                forall|x: u128| x != source.id ==> (#[trigger] copied@.contains_key(x) <==> last_match(sub@, x, j as int) is Some),
                forall|x: u128| x != source.id && #[trigger] copied@.contains_key(x) ==> copied@[x] == ids@[last_match(sub@, x, j as int)->0 + 1],
                forall|i: int| 0 <= i < j ==> (#[trigger] rows@[i])@ == spec_rows[i],
                forall|i: int| 1 <= i < m ==> (#[trigger] sub@[i]).parent_id is Some,
                format_used == uses_format(opt_text(*name_format)),
                copy_fits(sub@, k as int, next_sort as int, opt_text(*name_format)),
                spec_rows == copy_rows(
                    self.view(),
                    k as int,
                    ids@,
                    workspace_id,
                    next_sort as int,
                    opt_text(*name_format),
                    opt_text(*code_format),
                ),
            decreases m - j,
        {
            let node = &sub[j];
            let is_root = node.id == source.id;
            let row_id = if is_root {
                ids[0]
            } else {
                ids[j + 1]
            };
            let parent_id = if is_root {
                source.parent_id
            } else {
                let p = match node.parent_id {
                    Some(p) => p,
                    None => 0,
                };
                match copied.get(&p) {
                    Some(c) => Some(*c),
                    None => None,
                }
            };
            let name = if is_root {
                if format_used {
                    match name_format {
                        Some(f) => render_format(f.as_str(), k),
                        None => owned(""),
                    }
                } else {
                    assert(clone_name_fits(sub@[j as int].name@, k as int));
                    derive_clone_name(node.name.as_str(), k)
                }
            } else {
                node.name.clone()
            };
            let code = if is_root {
                match code_format {
                    Some(f) => Some(render_format(f.as_str(), k)),
                    None => None,
                }
            } else {
                copy_opt(&node.code)
            };
            let sort_order = if is_root {
                next_sort + k
            } else {
                node.sort_order
            };
            let row = NewSection {
                project_id: source.project_id,
                workspace_id,
                parent_id,
                name,
                code,
                section_type: copy_opt(&node.section_type),
                sort_order,
                id: Some(row_id),
            };
            assert(row@ == spec_rows[j as int]);
            rows.push(row);
            if !is_root {
                copied.insert(node.id, row_id);
            }
            proof {
                assert forall|x: u128| x != source.id implies (#[trigger] copied@.contains_key(x) <==> last_match(sub@, x, j + 1) is Some) by {
                    if x != node.id {
                        assert(last_match(sub@, x, j + 1) == last_match(sub@, x, j as int));
                    }
                }
                assert forall|x: u128| x != source.id && #[trigger] copied@.contains_key(x) implies copied@[x] == ids@[last_match(sub@, x, j + 1)->0 + 1] by {
                    if x != node.id {
                        assert(last_match(sub@, x, j + 1) == last_match(sub@, x, j as int));
                    }
                }
            }
            j = j + 1;
        }
        assert(rows_view(rows@) =~= spec_rows);
        rows
    }
}

/// The rows of copies `1..=c`, copy after copy, copy `k` with the fresh
/// identifiers `ids[k - 1]`.
pub open spec fn all_copies(
    sub: Seq<Section>,
    ids: Seq<Seq<u128>>,
    c: nat,
    workspace_id: u128,
    next_sort: int,
    name_format: Option<Seq<char>>,
    code_format: Option<Seq<char>>,
) -> Seq<RowModel>
    decreases c,
{
    if c == 0 {
        Seq::empty()
    } else {
        all_copies(sub, ids, (c - 1) as nat, workspace_id, next_sort, name_format, code_format)
            + copy_rows(sub, c as int, ids[c - 1], workspace_id, next_sort, name_format, code_format)
    }
}

/// Every copy `1..=count` can be formed without leaving the 64-bit range.
pub open spec fn clone_fits(sub: Seq<Section>, count: int, next_sort: int, name_format: Option<Seq<char>>) -> bool {
    forall|k: int| 1 <= k <= count ==> #[trigger] copy_fits(sub, k, next_sort, name_format)
}

impl CloneSubtree {
    /// Whether every copy `1..=count` can be formed within the 64-bit range
    /// (the advanced sort order and any advanced leading number of a name).
    pub fn fits(&self, count: i64, next_sort: i64, name_format: &Option<String>) -> (r: bool)
        requires
            count >= 1,
        ensures
            r == clone_fits(self.view(), count as int, next_sort as int, opt_text(*name_format)),
    {
        let ghost sub = self.view();
        let ghost nf = opt_text(*name_format);
        if next_sort as i128 + count as i128 > 0x7fff_ffff_ffff_ffff {
            assert(!copy_fits(sub, count as int, next_sort as int, nf));
            return false;
        }
        let format_used = match name_format {
            Some(f) => contains_text(f.as_str(), "{n}"),
            None => false,
        };
        proof {
            reveal_strlit("{n}");
        }
        assert(format_used == uses_format(nf));
        if format_used {
            return true;
        }
        proof {
            use_type_invariant(self);
        }
        let nodes = self.nodes.as_slice();
        let root_id = nodes[0].id;
        let mut j: usize = 0;
        while j < nodes.len()
            invariant
                nodes@ == sub,
                sub == self.view(),
                nf == opt_text(*name_format),
                sub.len() >= 1,
                root_id == sub[0].id,
                j <= sub.len(),
                !uses_format(nf),
                next_sort + count <= i64::MAX,
                count >= 1,
                forall|i: int, k: int| 0 <= i < j && is_root_node(sub, i) && 1 <= k <= count ==> #[trigger] clone_name_fits(sub[i].name@, k),
            decreases sub.len() - j,
        {
            if nodes[j].id == root_id {
                if !clone_name_fits_check(nodes[j].name.as_str(), count) {
                    assert(is_root_node(sub, j as int));
                    assert(!clone_name_fits(sub[j as int].name@, count as int));
                    assert(!copy_fits(sub, count as int, next_sort as int, nf));
                    return false;
                }
                proof {
                    crate::render::lemma_leading_number_nonneg(sub[j as int].name@);
                }
            }
            j = j + 1;
        }
        assert forall|k: int| 1 <= k <= count implies #[trigger] copy_fits(sub, k, next_sort as int, nf) by {
            assert forall|i: int| 0 <= i < sub.len() && is_root_node(sub, i) implies #[trigger] clone_name_fits(sub[i].name@, k) by {}
        }
        true
    }

    /// The rows of `count` copies of the subtree, copy after copy, each
    /// with its own fresh identifiers.
    pub fn clone_rows(
        &self,
        count: i64,
        workspace_id: u128,
        next_sort: i64,
        name_format: &Option<String>,
        code_format: &Option<String>,
    ) -> (r: Vec<NewSection>)
        requires
            count >= 0,
            clone_fits(self.view(), count as int, next_sort as int, opt_text(*name_format)),
        ensures
            exists|ids: Seq<Seq<u128>>|
                #![trigger all_copies(self.view(), ids, count as nat, workspace_id, next_sort as int, opt_text(*name_format), opt_text(*code_format))]
                ids.len() == count
                && (forall|c: int| 0 <= c < count ==> (#[trigger] ids[c]).len() == self.view().len() + 1)
                && rows_view(r@) == all_copies(
                    self.view(),
                    ids,
                    count as nat,
                    workspace_id,
                    next_sort as int,
                    opt_text(*name_format),
                    opt_text(*code_format),
                ),
    {
        let ghost sub = self.view();
        let ghost nf = opt_text(*name_format);
        let ghost cf = opt_text(*code_format);
        let m = self.nodes.len();
        let mut rows: Vec<NewSection> = Vec::new();
        let ghost mut drawn: Seq<Seq<u128>> = Seq::empty();
        let mut done: i64 = 0;
        while done < count
            invariant
                sub == self.view(),
                m == sub.len(),
                nf == opt_text(*name_format),
                cf == opt_text(*code_format),
                0 <= done <= count,
                clone_fits(sub, count as int, next_sort as int, nf),
                drawn.len() == done,
                forall|c: int| 0 <= c < done ==> (#[trigger] drawn[c]).len() == m + 1,
                rows_view(rows@) == all_copies(sub, drawn, done as nat, workspace_id, next_sort as int, nf, cf),
            decreases count - done,
        {
            let k = done + 1;
            let mut ids: Vec<u128> = Vec::new();
            ids.push(new_id());
            let mut q: usize = 0;
            while q < m
                invariant
                    ids@.len() == q + 1,
                    q <= m,
                decreases m - q,
            {
                ids.push(new_id());
                q = q + 1;
            }
            assert(copy_fits(sub, k as int, next_sort as int, nf));
            let part = self.copy(k, ids.as_slice(), workspace_id, next_sort, name_format, code_format);
            let ghost old_rows = rows@;
            let mut part_mut = part;
            rows.append(&mut part_mut);
            proof {
                let prev = drawn;
                drawn = drawn.push(ids@);
                assert forall|c: int| 0 <= c < k implies (#[trigger] drawn[c]).len() == m + 1 by {
                    if c < k - 1 {
                        assert(drawn[c] == prev[c]);
                    }
                }
                assert(all_copies(sub, drawn, done as nat, workspace_id, next_sort as int, nf, cf)
                    == all_copies(sub, prev, done as nat, workspace_id, next_sort as int, nf, cf)) by {
                    lemma_all_copies_prefix(sub, prev, drawn, done as nat, workspace_id, next_sort as int, nf, cf);
                }
                assert(rows_view(rows@) =~= rows_view(old_rows) + rows_view(part@));
                assert(drawn[k - 1] == ids@);
            }
            done = k;
        }
        rows
    }
}

proof fn lemma_all_copies_prefix(
    sub: Seq<Section>,
    a: Seq<Seq<u128>>,
    b: Seq<Seq<u128>>,
    c: nat,
    workspace_id: u128,
    next_sort: int,
    name_format: Option<Seq<char>>,
    code_format: Option<Seq<char>>,
)
    requires
        c <= a.len(),
        c <= b.len(),
        forall|i: int| 0 <= i < c ==> a[i] == b[i],
    ensures
        all_copies(sub, a, c, workspace_id, next_sort, name_format, code_format)
            == all_copies(sub, b, c, workspace_id, next_sort, name_format, code_format),
    decreases c,
{
    if c > 0 {
        lemma_all_copies_prefix(sub, a, b, (c - 1) as nat, workspace_id, next_sort, name_format, code_format);
    }
}

// ---------------------------------------------------------------------------
// What a clone keeps
// ---------------------------------------------------------------------------

/// A copy has the shape of the subtree: whenever a node's parent is an
/// earlier node of the subtree, the copied row of that node points at the
/// copied row of an earlier node carrying the parent's identifier, within
/// the same copy.
pub proof fn lemma_copy_keeps_shape(
    sub: Seq<Section>,
    k: int,
    ids: Seq<u128>,
    workspace_id: u128,
    next_sort: int,
    name_format: Option<Seq<char>>,
    code_format: Option<Seq<char>>,
    j: int,
)
    requires
        parents_precede(sub),
        ids.len() == sub.len() + 1,
        1 <= j < sub.len(),
        !is_root_node(sub, j),
    ensures
        exists|j2: int|
            0 <= j2 < j && sub[j2].id == sub[j].parent_id->0
            && #[trigger] copy_rows(sub, k, ids, workspace_id, next_sort, name_format, code_format)[j2].id
                == copy_rows(sub, k, ids, workspace_id, next_sort, name_format, code_format)[j].parent_id,
{
    let rows = copy_rows(sub, k, ids, workspace_id, next_sort, name_format, code_format);
    assert(sub[j].parent_id is Some);
    let p = sub[j].parent_id->0;
    if p == sub[0].id {
        assert(rows[0].id == Some(ids[0]));
        assert(rows[j].parent_id == Some(ids[0]));
    } else {
        let w = choose|j2: int| 0 <= j2 < j && sub[j2].id == p;
        lemma_last_match(sub, p, j);
        match last_match(sub, p, j) {
            Some(j2) => {
                assert(!is_root_node(sub, j2));
                assert(rows[j2].id == Some(ids[j2 + 1]));
                assert(rows[j].parent_id == Some(ids[j2 + 1]));
            },
            None => {
                assert(sub[w].id != p);
            },
        }
    }
}

/// Every row of a copy belongs to the source's project and the given
/// workspace and keeps the section type of the node it copies; every node
/// other than the source keeps its name, code and sort order, so only the
/// copy of the source is renamed, recoded and placed after its siblings.
pub proof fn lemma_copy_keeps_content(
    sub: Seq<Section>,
    k: int,
    ids: Seq<u128>,
    workspace_id: u128,
    next_sort: int,
    name_format: Option<Seq<char>>,
    code_format: Option<Seq<char>>,
    j: int,
)
    requires
        0 <= j < sub.len(),
    ensures
        ({
            let row = copy_rows(sub, k, ids, workspace_id, next_sort, name_format, code_format)[j];
            &&& row.project_id == sub[0].project_id
            &&& row.workspace_id == workspace_id
            &&& row.section_type == opt_text(sub[j].section_type)
            &&& sub[j].id != sub[0].id ==> row.name == sub[j].name@ && row.code == opt_text(sub[j].code)
                && row.sort_order == sub[j].sort_order as int
            &&& sub[j].id == sub[0].id ==> row.parent_id == sub[0].parent_id && row.sort_order == next_sort + k
                && (code_format is None ==> row.code is None)
        }),
{
}

/// A clone of `count` copies creates `count` times as many rows as the
/// subtree has sections.
pub proof fn lemma_clone_row_count(
    sub: Seq<Section>,
    ids: Seq<Seq<u128>>,
    count: nat,
    workspace_id: u128,
    next_sort: int,
    name_format: Option<Seq<char>>,
    code_format: Option<Seq<char>>,
)
    ensures
        all_copies(sub, ids, count, workspace_id, next_sort, name_format, code_format).len() == count * sub.len(),
    decreases count,
{
    if count > 0 {
        lemma_clone_row_count(sub, ids, (count - 1) as nat, workspace_id, next_sort, name_format, code_format);
        let c = count as int;
        let m = sub.len() as int;
        let last = copy_rows(sub, c, ids[c - 1], workspace_id, next_sort, name_format, code_format);
        assert(last.len() == m);
        assert(all_copies(sub, ids, count, workspace_id, next_sort, name_format, code_format)
            == all_copies(sub, ids, (count - 1) as nat, workspace_id, next_sort, name_format, code_format) + last);
        assert((c - 1) * m + m == c * m) by (nonlinear_arith);
    } else {
        assert(count * sub.len() == 0) by (nonlinear_arith)
            requires count == 0;
    }
}

// ---------------------------------------------------------------------------
// Single sections: create, update, delete
// ---------------------------------------------------------------------------

/// A section code as stored: trimmed and upper-cased; blank means none.
pub open spec fn spec_section_code(raw: Seq<char>) -> Option<Seq<char>> {
    let u = unicode_uppercase(trimmed(raw));
    if u.len() == 0 {
        None
    } else {
        Some(u)
    }
}

/// A section type as stored: trimmed; blank means none.
pub open spec fn spec_section_type(raw: Seq<char>) -> Option<Seq<char>> {
    let t = trimmed(raw);
    if t.len() == 0 {
        None
    } else {
        Some(t)
    }
}

/// An optional code as stored.
pub open spec fn spec_opt_code(raw: Option<Seq<char>>) -> Option<Seq<char>> {
    match raw {
        Some(c) => spec_section_code(c),
        None => None,
    }
}

/// An optional type as stored.
pub open spec fn spec_opt_type(raw: Option<Seq<char>>) -> Option<Seq<char>> {
    match raw {
        Some(t) => spec_section_type(t),
        None => None,
    }
}

/// Normalises a section code.
pub fn section_code(raw: &Option<String>) -> (r: Option<String>)
    ensures
        opt_text(r) == spec_opt_code(opt_text(*raw)),
{
    match raw {
        Some(c) => {
            let t = trim(c.as_str());
            let u = uppercase(t.as_str());
            if is_blank_exact(u.as_str()) {
                None
            } else {
                Some(u)
            }
        },
        None => None,
    }
}

/// Normalises a section type.
pub fn section_type(raw: &Option<String>) -> (r: Option<String>)
    ensures
        opt_text(r) == spec_opt_type(opt_text(*raw)),
{
    match raw {
        Some(t) => {
            let t = trim(t.as_str());
            if is_blank_exact(t.as_str()) {
                None
            } else {
                Some(t)
            }
        },
        None => None,
    }
}

/// Whether a string is empty.
fn is_blank_exact(s: &str) -> (r: bool)
    ensures
        r == (s@.len() == 0),
{
    s.unicode_len() == 0
}

/// A new single section.
#[derive(Debug)]
pub struct CreateSectionRequest {
    pub name: String,
    pub code: Option<String>,
    pub section_type: Option<String>,
    pub parent_id: Option<u128>,
}

impl CreateSectionRequest {
    /// The row to insert for this request under `project_id`, placed after
    /// the current last sibling (`max_sort`). The name is required.
    pub fn new_row(&self, project_id: u128, workspace_id: u128, max_sort: i64) -> (r: Result<NewSection, DomainError>)
        requires
            max_sort < i64::MAX,
        ensures
            trimmed(self.name@).len() == 0 ==> is_validation_err(r, "Bölüm adı zorunludur."@),
            trimmed(self.name@).len() > 0 ==> (r matches Ok(row) && row@ == RowModel {
                project_id,
                workspace_id,
                parent_id: self.parent_id,
                name: trimmed(self.name@),
                code: spec_opt_code(opt_text(self.code)),
                section_type: spec_opt_type(opt_text(self.section_type)),
                sort_order: max_sort + 1,
                id: None,
            }),
    {
        let name = trim(self.name.as_str());
        if is_blank(name.as_str()) {
            return Err(validation("Bölüm adı zorunludur."));
        }
        Ok(NewSection {
            project_id,
            workspace_id,
            parent_id: self.parent_id,
            name,
            code: section_code(&self.code),
            section_type: section_type(&self.section_type),
            sort_order: max_sort + 1,
            id: None,
        })
    }
}

/// A parent section must belong to the same project.
pub fn check_parent_project(parent_project_id: u128, project_id: u128) -> (r: Result<(), DomainError>)
    ensures
        r is Ok <==> parent_project_id == project_id,
        r is Err ==> is_validation_err(r, "Üst bölüm aynı projede olmalıdır."@),
{
    if parent_project_id != project_id {
        return Err(validation("Üst bölüm aynı projede olmalıdır."));
    }
    Ok(())
}

/// A partial update of a section; `code` and `section_type` distinguish an
/// absent field (left alone) from an explicit `null` (cleared).
#[derive(Debug)]
pub struct UpdateSectionRequest {
    pub name: Option<String>,
    pub code: Option<Option<String>>,
    pub section_type: Option<Option<String>>,
    pub sort_order: Option<i64>,
}

/// The same partial update as the store applies it.
#[derive(Debug)]
pub struct SectionPatch {
    pub name: Option<String>,
    pub code: Option<Option<String>>,
    pub section_type: Option<Option<String>>,
    pub sort_order: Option<i64>,
}

impl UpdateSectionRequest {
    /// The section after the update, stamped `now`. A given name must not be
    /// blank.
    pub fn apply(&self, existing: &Section, now: Moment) -> (r: Result<Section, DomainError>)
        ensures
            (self.name matches Some(n) && trimmed(n@).len() == 0) ==> is_validation_err(
                r,
                "Bölüm adı boş olamaz."@,
            ),
            !(self.name matches Some(n) && trimmed(n@).len() == 0) ==> (r matches Ok(s) && {
                &&& s.id == existing.id
                &&& s.workspace_id == existing.workspace_id
                &&& s.project_id == existing.project_id
                &&& s.parent_id == existing.parent_id
                &&& s.name@ == (match self.name {
                    Some(n) => trimmed(n@),
                    None => existing.name@,
                })
                &&& opt_text(s.code) == (match self.code {
                    Some(c) => spec_opt_code(opt_text(c)),
                    None => opt_text(existing.code),
                })
                &&& opt_text(s.section_type) == (match self.section_type {
                    Some(t) => spec_opt_type(opt_text(t)),
                    None => opt_text(existing.section_type),
                })
                &&& s.sort_order == (match self.sort_order {
                    Some(o) => o,
                    None => existing.sort_order,
                })
                &&& s.created_at == existing.created_at
                &&& s.updated_at == now
                &&& s.deleted_at == existing.deleted_at
            }),
    {
        let mut updated = existing.duplicate();
        match &self.name {
            Some(n) => {
                let n = trim(n.as_str());
                if is_blank(n.as_str()) {
                    return Err(validation("Bölüm adı boş olamaz."));
                }
                updated.name = n;
            },
            None => {},
        }
        match &self.code {
            Some(c) => {
                updated.code = section_code(c);
            },
            None => {},
        }
        match &self.section_type {
            Some(t) => {
                updated.section_type = section_type(t);
            },
            None => {},
        }
        match self.sort_order {
            Some(o) => {
                updated.sort_order = o;
            },
            None => {},
        }
        updated.updated_at = now;
        Ok(updated)
    }
}

/// A section with sub-sections cannot be deleted; they go first.
pub fn check_section_delete(children: i64) -> (r: Result<(), DomainError>)
    ensures
        r is Ok <==> children <= 0,
        r is Err ==> is_conflict_err(r, "Bu bölümün alt bölümleri var; önce onları silin."@),
{
    if children > 0 {
        return Err(crate::errors::conflict("Bu bölümün alt bölümleri var; önce onları silin."));
    }
    Ok(())
}

// ---------------------------------------------------------------------------
// Bulk generator
// ---------------------------------------------------------------------------

/// "Daire 1..Daire 10": `count` numbered sections from `start_index`.
#[derive(Debug)]
pub struct BulkSectionRequest {
    pub parent_id: Option<u128>,
    pub start_index: i64,
    pub count: i64,
    pub name_format: String,
    pub code_format: Option<String>,
    pub section_type: Option<String>,
}

/// Largest number of sections one bulk request may create.
pub const MAX_BULK_COUNT: i64 = 200;

/// Row `i` of a bulk request: number `start_index + i`, placed after the
/// current last sibling (`max_sort`).
pub open spec fn bulk_row(
    req_parent: Option<u128>,
    start_index: int,
    name_format: Seq<char>,
    code_format: Option<Seq<char>>,
    kind: Option<Seq<char>>,
    project_id: u128,
    workspace_id: u128,
    max_sort: int,
    i: int,
) -> RowModel {
    RowModel {
        project_id,
        workspace_id,
        parent_id: req_parent,
        name: spec_render(name_format, start_index + i),
        code: match code_format {
            Some(f) => Some(spec_render(f, start_index + i)),
            None => None,
        },
        section_type: kind,
        sort_order: max_sort + i + 1,
        id: None,
    }
}

impl BulkSectionRequest {
    /// The count must lie in `1..=MAX_BULK_COUNT` and the name format must
    /// hold `{n}`.
    pub fn validate(&self) -> (r: Result<(), DomainError>)
        ensures
            !(1 <= self.count <= 200) ==> is_validation_err(r, "Adet 1 ile 200 arasında olmalı."@),
            (1 <= self.count <= 200 && !occurs_in(self.name_format@, "{n}"@)) ==> is_validation_err(
                r,
                "İsim formatı {n} içermelidir. Örn: \"Daire {n}\""@,
            ),
            r is Ok <==> (1 <= self.count <= 200 && occurs_in(self.name_format@, "{n}"@)),
    {
        if self.count < 1 || self.count > MAX_BULK_COUNT {
            return Err(validation("Adet 1 ile 200 arasında olmalı."));
        }
        let found = contains_text(self.name_format.as_str(), "{n}");
        if !found {
            return Err(validation("İsim formatı {n} içermelidir. Örn: \"Daire {n}\""));
        }
        Ok(())
    }

    /// The numbers and sort orders of the rows stay within 64 bits.
    pub open spec fn spec_fits(&self, max_sort: int) -> bool {
        &&& self.start_index + self.count <= i64::MAX + 1
        &&& max_sort + self.count <= i64::MAX
    }

    /// Whether the numbers and sort orders stay within 64 bits.
    pub fn fits(&self, max_sort: i64) -> (r: bool)
        ensures
            r == self.spec_fits(max_sort as int),
    {
        self.start_index as i128 + self.count as i128 <= 0x8000_0000_0000_0000
            && max_sort as i128 + self.count as i128 <= 0x7fff_ffff_ffff_ffff
    }

    /// The rows to insert, in order.
    pub fn rows(&self, project_id: u128, workspace_id: u128, max_sort: i64) -> (r: Vec<NewSection>)
        requires
            1 <= self.count <= 200,
            self.spec_fits(max_sort as int),
        ensures
            rows_view(r@) == Seq::new(
                self.count as nat,
                |i: int|
                    bulk_row(
                        self.parent_id,
                        self.start_index as int,
                        self.name_format@,
                        opt_text(self.code_format),
                        opt_text(self.section_type),
                        project_id,
                        workspace_id,
                        max_sort as int,
                        i,
                    ),
            ),
    {
        let ghost want = Seq::new(
            self.count as nat,
            |i: int|
                bulk_row(
                    self.parent_id,
                    self.start_index as int,
                    self.name_format@,
                    opt_text(self.code_format),
                    opt_text(self.section_type),
                    project_id,
                    workspace_id,
                    max_sort as int,
                    i,
                ),
        );
        let mut rows: Vec<NewSection> = Vec::new();
        let mut i: i64 = 0;
        while i < self.count
            invariant
                1 <= self.count <= 200,
                self.spec_fits(max_sort as int),
                0 <= i <= self.count,
                rows@.len() == i,
                forall|j: int| 0 <= j < i ==> (#[trigger] rows@[j])@ == want[j],
                want == Seq::new(
                    self.count as nat,
                    |i: int|
                        bulk_row(
                            self.parent_id,
                            self.start_index as int,
                            self.name_format@,
                            opt_text(self.code_format),
                            opt_text(self.section_type),
                            project_id,
                            workspace_id,
                            max_sort as int,
                            i,
                        ),
                ),
            decreases self.count - i,
        {
            let n = self.start_index + i;
            let code = match &self.code_format {
                Some(f) => Some(render_format(f.as_str(), n)),
                None => None,
            };
            let row = NewSection {
                project_id,
                workspace_id,
                parent_id: self.parent_id,
                name: render_format(self.name_format.as_str(), n),
                code,
                section_type: copy_opt(&self.section_type),
                sort_order: max_sort + i + 1,
                id: None,
            };
            assert(row@ == want[i as int]);
            rows.push(row);
            i = i + 1;
        }
        assert(rows_view(rows@) =~= want);
        rows
    }
}

/// Copies of a section subtree.
#[derive(Debug)]
pub struct CloneSectionRequest {
    pub count: i64,
    pub name_format: Option<String>,
    pub code_format: Option<String>,
}

} // verus!
