//! The progress matrix under a section: its children are the rows, the
//! children of each row, by position, the columns; a cell sums up the work
//! items of one section.

use vstd::prelude::*;
use crate::sections::{Section, children_idx, children_of, children_in, child_index, indexes_children, as_ints};
use crate::entities::ProcessStatus;
use crate::errors::{DomainError, validation, is_validation_err};
use crate::aggregate::{spec_summary, summarize_statuses};
use crate::duration::Moment;
use crate::executions::{moment_before, is_before};
use crate::render::decimal;
use crate::text::{owned, join2, str_eq};

verus! {

/// A column of the matrix: a position among the children of the rows and
/// its heading.
#[derive(Debug)]
pub struct MatrixCol {
    pub position: i64,
    pub label: String,
}

/// The rows of the matrix under `parent_id`: its children, in list order.
/// A section without children has no matrix.
pub fn matrix_rows(parent_id: u128, all: &[Section]) -> (r: Result<Vec<usize>, DomainError>)
    ensures
        children_idx(all@, parent_id).len() == 0 ==> is_validation_err(
            r,
            "Bu bölümün altında satır olacak bölüm yok."@,
        ),
        children_idx(all@, parent_id).len() > 0 ==> (r matches Ok(v) && as_ints(v@) == children_idx(all@, parent_id)),
        r matches Ok(v) ==> forall|k: int| 0 <= k < v@.len() ==> v@[k] < all@.len(),
{
    let rows = children_of(all, parent_id);
    if rows.len() == 0 {
        return Err(validation("Bu bölümün altında satır olacak bölüm yok."));
    }
    Ok(rows)
}

/// Number of occurrences of `x` in `s`.
pub open spec fn occurrences(s: Seq<Seq<char>>, x: Seq<char>) -> nat
    decreases s.len(),
{
    if s.len() == 0 {
        0
    } else {
        occurrences(s.drop_last(), x) + if s.last() == x { 1nat } else { 0nat }
    }
}

/// `s[k]` occurs at least as often as any other element of `s`.
pub open spec fn is_mode_at(s: Seq<Seq<char>>, k: int) -> bool {
    0 <= k < s.len() && forall|j: int| 0 <= j < s.len() ==> occurrences(s, #[trigger] s[j]) <= occurrences(s, s[k])
}

/// The names, in row order, of the children at position `pos` (rows with
/// fewer children contribute nothing).
pub open spec fn names_at(all: Seq<Section>, rows: Seq<int>, pos: int) -> Seq<Seq<char>>
    decreases rows.len(),
{
    if rows.len() == 0 {
        Seq::empty()
    } else {
        let prev = names_at(all, rows.drop_last(), pos);
        let c = children_idx(all, all[rows.last()].id);
        if pos < c.len() {
            prev.push(all[c[pos]].name@)
        } else {
            prev
        }
    }
}

/// The largest number of children among the rows.
pub open spec fn widest(all: Seq<Section>, rows: Seq<int>) -> nat
    decreases rows.len(),
{
    if rows.len() == 0 {
        0
    } else {
        let prev = widest(all, rows.drop_last());
        let n = children_idx(all, all[rows.last()].id).len();
        if n > prev {
            n
        } else {
            prev
        }
    }
}

/// The heading of a column: its most frequent child name, the first such in
/// row order when several are equally frequent; `Sütun <position>` when no
/// row reaches the position.
pub open spec fn column_label(names: Seq<Seq<char>>, label: Seq<char>, position: int) -> bool {
    if names.len() == 0 {
        label == "Sütun "@ + decimal(position as nat)
    } else {
        exists|k: int| #[trigger] is_mode_at(names, k) && names[k] == label
            && forall|k2: int| 0 <= k2 < k ==> !is_mode_at(names, k2)
    }
}

fn count_name(names: &Vec<String>, x: &str) -> (r: usize)
    ensures
        r == occurrences(names@.map_values(|s: String| s@), x@),
{
    let ghost v = names@.map_values(|s: String| s@);
    let mut c: usize = 0;
    let mut i: usize = 0;
    while i < names.len()
        invariant
            i <= names@.len(),
            v == names@.map_values(|s: String| s@),
            c == occurrences(v.subrange(0, i as int), x@),
            c <= i,
        decreases names@.len() - i,
    {
        proof {
            assert(v.subrange(0, i + 1).drop_last() =~= v.subrange(0, i as int));
        }
        if str_eq(names[i].as_str(), x) {
            c = c + 1;
        }
        i = i + 1;
    }
    assert(v.subrange(0, names@.len() as int) =~= v);
    c
}

/// The columns of the matrix for `rows` (indices of the row sections in
/// `all`): one per position up to the widest row, numbered from 1.
pub fn matrix_cols(all: &[Section], rows: &[usize]) -> (r: Vec<MatrixCol>)
    requires
        forall|k: int| 0 <= k < rows@.len() ==> rows@[k] < all@.len(),
        all@.len() < i64::MAX,
    ensures
        r@.len() == widest(all@, as_ints(rows@)),
        forall|p: int| 0 <= p < r@.len() ==> (#[trigger] r@[p]).position == p + 1
            && column_label(names_at(all@, as_ints(rows@), p), r@[p].label@, p + 1),
{
    // children of each row
    let index = child_index(all);
    let mut kids: Vec<Vec<usize>> = Vec::new();
    let mut width: usize = 0;
    let mut i: usize = 0;
    while i < rows.len()
        invariant
            indexes_children(index@, all@, all@.len() as nat),
            i <= rows@.len(),
            forall|k: int| 0 <= k < rows@.len() ==> rows@[k] < all@.len(),
            kids@.len() == i,
            forall|k: int| 0 <= k < i ==> as_ints(#[trigger] kids@[k]@) == children_idx(all@, all@[rows@[k] as int].id),
            forall|k: int, q: int| 0 <= k < i && 0 <= q < kids@[k]@.len() ==> #[trigger] kids@[k]@[q] < all@.len(),
            width == widest(all@, as_ints(rows@.subrange(0, i as int))),
            width <= all@.len(),
        decreases rows@.len() - i,
    {
        let c = children_in(&index, all, all[rows[i]].id);
        proof {
            assert(as_ints(rows@.subrange(0, i + 1)).drop_last() =~= as_ints(rows@.subrange(0, i as int)));
            assert(c@.len() == children_idx(all@, all@[rows@[i as int] as int].id).len());
            lemma_children_len(all@, all@[rows@[i as int] as int].id, all@.len());
        }
        if c.len() > width {
            width = c.len();
        }
        kids.push(c);
        i = i + 1;
    }
    assert(rows@.subrange(0, rows@.len() as int) =~= rows@);
    let mut cols: Vec<MatrixCol> = Vec::new();
    let mut pos: usize = 0;
    while pos < width
        invariant
            pos <= width,
            width == widest(all@, as_ints(rows@)),
            width <= all@.len(),
            all@.len() < i64::MAX,
            kids@.len() == rows@.len(),
            forall|k: int| 0 <= k < rows@.len() ==> rows@[k] < all@.len(),
            forall|k: int| 0 <= k < rows@.len() ==> as_ints(#[trigger] kids@[k]@) == children_idx(all@, all@[rows@[k] as int].id),
            forall|k: int, q: int| 0 <= k < rows@.len() && 0 <= q < kids@[k]@.len() ==> #[trigger] kids@[k]@[q] < all@.len(),
            cols@.len() == pos,
            forall|p: int| 0 <= p < pos ==> (#[trigger] cols@[p]).position == p + 1
                && column_label(names_at(all@, as_ints(rows@), p), cols@[p].label@, p + 1),
        decreases width - pos,
    {
        // the names at this position, in row order
        let mut names: Vec<String> = Vec::new();
        let mut k: usize = 0;
        while k < rows.len()
            invariant
                k <= rows@.len(),
                kids@.len() == rows@.len(),
                forall|k: int| 0 <= k < rows@.len() ==> rows@[k] < all@.len(),
                forall|k: int| 0 <= k < rows@.len() ==> as_ints(#[trigger] kids@[k]@) == children_idx(all@, all@[rows@[k] as int].id),
                forall|k: int, q: int| 0 <= k < rows@.len() && 0 <= q < kids@[k]@.len() ==> #[trigger] kids@[k]@[q] < all@.len(),
                names@.map_values(|s: String| s@) == names_at(all@, as_ints(rows@.subrange(0, k as int)), pos as int),
            decreases rows@.len() - k,
        {
            proof {
                assert(as_ints(rows@.subrange(0, k + 1)).drop_last() =~= as_ints(rows@.subrange(0, k as int)));
                assert(as_ints(rows@.subrange(0, k + 1)).last() == rows@[k as int] as int);
            }
            if pos < kids[k].len() {
                let child = kids[k][pos];
                proof {
                    assert(as_ints(kids@[k as int]@)[pos as int] == child as int);
                }
                let ghost before = names@.map_values(|s: String| s@);
                names.push(all[child].name.clone());
                assert(names@.map_values(|s: String| s@) =~= before.push(all@[child as int].name@));
            } else {
                assert(as_ints(kids@[k as int]@).len() == kids@[k as int]@.len());
            }
            k = k + 1;
        }
        assert(rows@.subrange(0, rows@.len() as int) =~= rows@);
        let ghost nv = names@.map_values(|s: String| s@);
        // the first name of greatest frequency
        let label = if names.len() == 0 {
            let t = crate::render::nat_to_string((pos + 1) as u64);
            join2("Sütun ", t.as_str())
        } else {
            let mut best: usize = 0;
            let mut best_count: usize = count_name(&names, names[0].as_str());
            let mut j: usize = 1;
            while j < names.len()
                invariant
                    1 <= j <= names@.len(),
                    nv == names@.map_values(|s: String| s@),
                    best < j,
                    best_count == occurrences(nv, nv[best as int]),
                    forall|q: int| 0 <= q < j ==> occurrences(nv, #[trigger] nv[q]) <= best_count,
                    forall|q: int| 0 <= q < best ==> occurrences(nv, #[trigger] nv[q]) < best_count,
                decreases names@.len() - j,
            {
                let c = count_name(&names, names[j].as_str());
                if c > best_count {
                    best = j;
                    best_count = c;
                }
                j = j + 1;
            }
            proof {
                assert(is_mode_at(nv, best as int));
                assert forall|k2: int| 0 <= k2 < best implies !is_mode_at(nv, k2) by {
                    assert(occurrences(nv, nv[k2]) < occurrences(nv, nv[best as int]));
                }
            }
            names[best].clone()
        };
        cols.push(MatrixCol { position: (pos + 1) as i64, label });
        pos = pos + 1;
    }
    cols
}

proof fn lemma_children_len(s: Seq<Section>, x: u128, n: nat)
    requires
        n <= s.len(),
    ensures
        crate::sections::children_below(s, x, n).len() <= n,
    decreases n,
{
    if n > 0 {
        lemma_children_len(s, x, (n - 1) as nat);
    }
}

// ---------------------------------------------------------------------------
// Cells
// ---------------------------------------------------------------------------

/// One live execution of a work item placed in a cell's section.
#[derive(Debug)]
pub struct CellRow {
    pub work_item_id: u128,
    pub work_item_name: String,
    pub status: ProcessStatus,
    pub planned_end_at: Option<Moment>,
}

/// The summary of one cell.
#[derive(Debug)]
pub struct MatrixCell {
    pub status: String,
    pub item_count: i64,
    pub label: String,
    pub section_id: u128,
    pub late: bool,
}

/// The work items of the rows, each once, in order of first appearance.
pub open spec fn distinct_items(rows: Seq<CellRow>) -> Seq<u128>
    decreases rows.len(),
{
    if rows.len() == 0 {
        Seq::empty()
    } else {
        let prev = distinct_items(rows.drop_last());
        if prev.contains(rows.last().work_item_id) {
            prev
        } else {
            prev.push(rows.last().work_item_id)
        }
    }
}

/// The statuses of one work item's rows, in order.
pub open spec fn item_statuses(rows: Seq<CellRow>, item: u128) -> Seq<ProcessStatus>
    decreases rows.len(),
{
    if rows.len() == 0 {
        Seq::empty()
    } else {
        let prev = item_statuses(rows.drop_last(), item);
        if rows.last().work_item_id == item {
            prev.push(rows.last().status)
        } else {
            prev
        }
    }
}

/// The summaries of the work items, in order of first appearance.
pub open spec fn item_summaries(rows: Seq<CellRow>) -> Seq<ProcessStatus> {
    distinct_items(rows).map_values(|x: u128| spec_summary(item_statuses(rows, x))->0)
}

/// The cell's status: the summary of the work items' summaries (PENDING
/// when there is none).
pub open spec fn cell_status(rows: Seq<CellRow>) -> ProcessStatus {
    match spec_summary(item_summaries(rows)) {
        Some(s) => s,
        None => ProcessStatus::Pending,
    }
}

/// An unfinished execution that was planned to end before `now`.
pub open spec fn row_late(r: CellRow, now: Moment) -> bool {
    r.status != ProcessStatus::Completed && (r.planned_end_at matches Some(p) && moment_before(p, now))
}

/// Some unfinished execution of the cell was planned to end before `now`.
pub open spec fn cell_late(rows: Seq<CellRow>, now: Moment) -> bool {
    exists|i: int| 0 <= i < rows.len() && #[trigger] row_late(rows[i], now)
}

proof fn lemma_item_statuses_nonempty(rows: Seq<CellRow>, item: u128)
    requires
        distinct_items(rows).contains(item),
    ensures
        item_statuses(rows, item).len() > 0,
    decreases rows.len(),
{
    if rows.len() > 0 {
        let prev = distinct_items(rows.drop_last());
        if rows.last().work_item_id != item {
            if !prev.contains(rows.last().work_item_id) {
                assert(prev.push(rows.last().work_item_id).contains(item));
                let i = choose|i: int| 0 <= i < prev.push(rows.last().work_item_id).len()
                    && prev.push(rows.last().work_item_id)[i] == item;
                assert(prev[i] == item);
            }
            lemma_item_statuses_nonempty(rows.drop_last(), item);
        }
    }
}

fn statuses_of(rows: &[CellRow], item: u128) -> (r: Vec<ProcessStatus>)
    ensures
        r@ == item_statuses(rows@, item),
{
    let mut r: Vec<ProcessStatus> = Vec::new();
    let mut i: usize = 0;
    while i < rows.len()
        invariant
            i <= rows@.len(),
            r@ == item_statuses(rows@.subrange(0, i as int), item),
        decreases rows@.len() - i,
    {
        proof {
            assert(rows@.subrange(0, i + 1).drop_last() =~= rows@.subrange(0, i as int));
        }
        if rows[i].work_item_id == item {
            r.push(rows[i].status);
        }
        i = i + 1;
    }
    assert(rows@.subrange(0, rows@.len() as int) =~= rows@);
    r
}

fn contains_id(v: &Vec<u128>, x: u128) -> (r: bool)
    ensures
        r == v@.contains(x),
{
    let mut i: usize = 0;
    while i < v.len()
        invariant
            i <= v@.len(),
            forall|k: int| 0 <= k < i ==> v@[k] != x,
        decreases v@.len() - i,
    {
        if v[i] == x {
            assert(v@[i as int] == x);
            return true;
        }
        i = i + 1;
    }
    false
}

/// The cell of a section, from the live executions of its work items; no
/// cell when the section has none. The count is of distinct work items, the
/// label the name of one of them (that of the last row), and the cell is
/// late when some unfinished execution was planned to end before `now`.
pub fn matrix_cell(rows: &[CellRow], section_id: u128, now: Moment) -> (r: Option<MatrixCell>)
    requires
        rows@.len() < i64::MAX,
    ensures
        rows@.len() == 0 ==> r is None,
        rows@.len() > 0 ==> (r matches Some(c) && {
            &&& c.status@ == cell_status(rows@).name()
            &&& c.item_count == distinct_items(rows@).len()
            &&& c.label@ == rows@.last().work_item_name@
            &&& c.section_id == section_id
            &&& c.late == cell_late(rows@, now)
        }),
{
    if rows.len() == 0 {
        return None;
    }
    // distinct work items in order of first appearance
    let mut items: Vec<u128> = Vec::new();
    let mut i: usize = 0;
    while i < rows.len()
        invariant
            i <= rows@.len(),
            items@ == distinct_items(rows@.subrange(0, i as int)),
            items@.len() <= i,
        decreases rows@.len() - i,
    {
        proof {
            assert(rows@.subrange(0, i + 1).drop_last() =~= rows@.subrange(0, i as int));
        }
        if !contains_id(&items, rows[i].work_item_id) {
            items.push(rows[i].work_item_id);
        }
        i = i + 1;
    }
    assert(rows@.subrange(0, rows@.len() as int) =~= rows@);
    // each work item's summary
    let mut sums: Vec<ProcessStatus> = Vec::new();
    let mut k: usize = 0;
    while k < items.len()
        invariant
            k <= items@.len(),
            items@ == distinct_items(rows@),
            sums@ == item_summaries(rows@).subrange(0, k as int),
        decreases items@.len() - k,
    {
        let st = statuses_of(rows, items[k]);
        proof {
            assert(distinct_items(rows@).contains(items@[k as int]));
            lemma_item_statuses_nonempty(rows@, items@[k as int]);
            crate::aggregate::lemma_summary_is_member(st@);
        }
        let s = summarize_statuses(st.as_slice());
        let one = match s {
            Some(x) => x,
            None => ProcessStatus::Pending,
        };
        sums.push(one);
        k = k + 1;
        assert(sums@ =~= item_summaries(rows@).subrange(0, k as int));
    }
    assert(item_summaries(rows@).subrange(0, items@.len() as int) =~= item_summaries(rows@));
    let status = match summarize_statuses(sums.as_slice()) {
        Some(s) => s,
        None => ProcessStatus::Pending,
    };
    // lateness
    let mut late = false;
    let mut j: usize = 0;
    while j < rows.len()
        invariant
            j <= rows@.len(),
            late == exists|q: int| 0 <= q < j && #[trigger] row_late(rows@[q], now),
        decreases rows@.len() - j,
    {
        let this_late = match rows[j].planned_end_at {
            Some(p) => rows[j].status != ProcessStatus::Completed && is_before(p, now),
            None => false,
        };
        assert(this_late == row_late(rows@[j as int], now));
        if this_late {
            late = true;
        }
        j = j + 1;
    }
    let label = rows[rows.len() - 1].work_item_name.clone();
    Some(MatrixCell {
        status: owned(status.as_str()),
        item_count: items.len() as i64,
        label,
        section_id,
        late,
    })
}

proof fn lemma_distinct_has(rows: Seq<CellRow>, i: int)
    requires
        0 <= i < rows.len(),
    ensures
        distinct_items(rows).contains(rows[i].work_item_id),
    decreases rows.len(),
{
    let prev = distinct_items(rows.drop_last());
    if i < rows.len() - 1 {
        lemma_distinct_has(rows.drop_last(), i);
        assert(rows.drop_last()[i] == rows[i]);
        if !prev.contains(rows.last().work_item_id) {
            let j = choose|j: int| 0 <= j < prev.len() && prev[j] == rows[i].work_item_id;
            assert(prev.push(rows.last().work_item_id)[j] == rows[i].work_item_id);
        }
    } else {
        if !prev.contains(rows.last().work_item_id) {
            assert(prev.push(rows.last().work_item_id)[prev.len() as int] == rows[i].work_item_id);
        }
    }
}

proof fn lemma_statuses_has(rows: Seq<CellRow>, i: int)
    requires
        0 <= i < rows.len(),
    ensures
        item_statuses(rows, rows[i].work_item_id).contains(rows[i].status),
    decreases rows.len(),
{
    let x = rows[i].work_item_id;
    let prev = item_statuses(rows.drop_last(), x);
    if i < rows.len() - 1 {
        lemma_statuses_has(rows.drop_last(), i);
        assert(rows.drop_last()[i] == rows[i]);
        let j = choose|j: int| 0 <= j < prev.len() && prev[j] == rows[i].status;
        if rows.last().work_item_id == x {
            assert(prev.push(rows.last().status)[j] == rows[i].status);
        }
    } else {
        assert(prev.push(rows.last().status)[prev.len() as int] == rows[i].status);
    }
}

/// A blocked execution always shows: a cell holding one is BLOCKED,
/// whatever the other work items do.
pub proof fn lemma_blocked_cell(rows: Seq<CellRow>, i: int)
    requires
        0 <= i < rows.len(),
        rows[i].status == ProcessStatus::Blocked,
    ensures
        cell_status(rows) == ProcessStatus::Blocked,
{
    let x = rows[i].work_item_id;
    lemma_distinct_has(rows, i);
    lemma_statuses_has(rows, i);
    crate::aggregate::lemma_blocked_dominates(item_statuses(rows, x));
    let d = distinct_items(rows);
    let k = choose|k: int| 0 <= k < d.len() && d[k] == x;
    assert(item_summaries(rows)[k] == ProcessStatus::Blocked);
    assert(item_summaries(rows).contains(ProcessStatus::Blocked));
    crate::aggregate::lemma_blocked_dominates(item_summaries(rows));
}

} // verus!
