//! Project figures: the work item summary of the dashboard (one summary
//! status per work item, counted by kind, and the late ones) and the
//! per-template averages of completed executions' durations.

use vstd::prelude::*;
use crate::entities::ProcessStatus;
use crate::aggregate::{spec_summary, summarize_statuses};
use crate::duration::{Moment, Durations};
use crate::executions::{moment_before, is_before};
use crate::render::{replace_all, replace_text};
use crate::text::owned;
use std::collections::HashSet;

verus! {

// ---------------------------------------------------------------------------
// Work item summary
// ---------------------------------------------------------------------------

/// The dashboard's work item figures.
#[derive(Debug, Clone, Copy, PartialEq, Eq, Structural)]
pub struct WorkItemSummary {
    pub total: i64,
    pub completed: i64,
    pub in_progress: i64,
    pub blocked: i64,
    pub pending: i64,
    /// Active work items planned to end before now.
    pub late: i64,
    /// Process steps completed since the start of today.
    pub completed_today: i64,
}

/// The keys, each once, in order of first appearance.
pub open spec fn first_keys(keys: Seq<u128>) -> Seq<u128>
    decreases keys.len(),
{
    if keys.len() == 0 {
        Seq::empty()
    } else {
        let prev = first_keys(keys.drop_last());
        if prev.contains(keys.last()) {
            prev
        } else {
            prev.push(keys.last())
        }
    }
}

/// The statuses recorded for work item `x`, in order.
pub open spec fn statuses_for(rows: Seq<(u128, ProcessStatus)>, x: u128) -> Seq<ProcessStatus>
    decreases rows.len(),
{
    if rows.len() == 0 {
        Seq::empty()
    } else {
        let prev = statuses_for(rows.drop_last(), x);
        if rows.last().0 == x {
            prev.push(rows.last().1)
        } else {
            prev
        }
    }
}

/// The figure a summary counts toward: 0 completed, 1 in progress,
/// 2 blocked, 3 pending (any other status), 4 none.
pub open spec fn figure_of(s: Option<ProcessStatus>) -> int {
    match s {
        Some(ProcessStatus::Completed) => 0,
        Some(ProcessStatus::InProgress) => 1,
        Some(ProcessStatus::Blocked) => 2,
        Some(_) => 3,
        None => 4,
    }
}

/// How many of `items` have a summary counting toward figure `f`.
pub open spec fn count_figure(rows: Seq<(u128, ProcessStatus)>, items: Seq<u128>, f: int) -> nat
    decreases items.len(),
{
    if items.len() == 0 {
        0
    } else {
        count_figure(rows, items.drop_last(), f) + if figure_of(spec_summary(statuses_for(rows, items.last()))) == f {
            1nat
        } else {
            0nat
        }
    }
}

/// The late work items: those with a planned end before `now`.
pub open spec fn late_keys(rows: Seq<(u128, Option<Moment>, ProcessStatus)>, now: Moment) -> Seq<u128> {
    first_keys(
        rows.filter(|r: (u128, Option<Moment>, ProcessStatus)| r.1 matches Some(p) && moment_before(p, now)).map_values(
            |r: (u128, Option<Moment>, ProcessStatus)| r.0,
        ),
    )
}

proof fn lemma_first_keys_distinct(keys: Seq<u128>)
    ensures
        forall|x: u128| first_keys(keys).contains(x) <==> keys.contains(x),
        first_keys(keys).no_duplicates(),
    decreases keys.len(),
{
    if keys.len() > 0 {
        let pre = keys.drop_last();
        let y = keys.last();
        lemma_first_keys_distinct(pre);
        assert(keys == pre.push(y));
        let f = first_keys(pre);
        assert forall|x: u128| first_keys(keys).contains(x) <==> keys.contains(x) by {
            if keys.contains(x) && x != y {
                let j = choose|j: int| 0 <= j < keys.len() && keys[j] == x;
                assert(pre[j] == x);
            }
            if pre.contains(x) {
                let j = choose|j: int| 0 <= j < pre.len() && pre[j] == x;
                assert(keys[j] == x);
            }
            if x == y {
                assert(keys[keys.len() - 1] == y);
            }
            if !f.contains(y) {
                let g = f.push(y);
                assert(g[f.len() as int] == y);
                if g.contains(x) && x != y {
                    let j = choose|j: int| 0 <= j < g.len() && g[j] == x;
                    assert(f[j] == x);
                }
                if f.contains(x) {
                    let j = choose|j: int| 0 <= j < f.len() && f[j] == x;
                    assert(g[j] == x);
                }
            }
        }
        if !f.contains(y) {
            let g = f.push(y);
            assert forall|a: int, b: int| 0 <= a < g.len() && 0 <= b < g.len() && a != b implies g[a] != g[b] by {
                if a < f.len() && b < f.len() {
                    assert(g[a] == f[a] && g[b] == f[b]);
                } else if a < f.len() {
                    assert(g[a] == f[a]);
                } else if b < f.len() {
                    assert(g[b] == f[b]);
                }
            }
        }
    }
}

proof fn lemma_late_ids(rows: Seq<(u128, Option<Moment>, ProcessStatus)>, now: Moment, x: u128)
    ensures
        rows.filter(|r: (u128, Option<Moment>, ProcessStatus)| r.1 matches Some(p) && moment_before(p, now)).map_values(
            |r: (u128, Option<Moment>, ProcessStatus)| r.0,
        ).contains(x) <==> exists|i: int|
            0 <= i < rows.len() && (#[trigger] rows[i]).0 == x && (rows[i].1 matches Some(p) && (p.secs < now.secs || (
            p.secs == now.secs && p.nanos < now.nanos))),
    decreases rows.len(),
{
    let pred = |r: (u128, Option<Moment>, ProcessStatus)| r.1 matches Some(p) && moment_before(p, now);
    let key = |r: (u128, Option<Moment>, ProcessStatus)| r.0;
    if rows.len() == 0 {
        assert(rows.filter(pred) =~= Seq::<(u128, Option<Moment>, ProcessStatus)>::empty()) by {
            reveal(Seq::filter);
        }
    } else {
        let pre = rows.drop_last();
        let r = rows.last();
        lemma_late_ids(pre, now, x);
        assert(rows == pre.push(r));
        pre.lemma_filter_push(r, pred);
        let m = pre.filter(pred).map_values(key);
        if pred(r) {
            assert(rows.filter(pred).map_values(key) =~= m.push(r.0));
            if m.push(r.0).contains(x) && x != r.0 {
                let j = choose|j: int| 0 <= j < m.push(r.0).len() && m.push(r.0)[j] == x;
                assert(m[j] == x);
            }
            if m.contains(x) {
                let j = choose|j: int| 0 <= j < m.len() && m[j] == x;
                assert(m.push(r.0)[j] == x);
            }
            if x == r.0 {
                assert(m.push(r.0)[m.len() as int] == x);
                assert(rows[rows.len() - 1] == r);
            }
        }
        if exists|i: int|
            0 <= i < rows.len() && (#[trigger] rows[i]).0 == x && (rows[i].1 matches Some(p) && (p.secs < now.secs || (
            p.secs == now.secs && p.nanos < now.nanos))) {
            let i = choose|i: int|
                0 <= i < rows.len() && (#[trigger] rows[i]).0 == x && (rows[i].1 matches Some(p) && (p.secs < now.secs
                    || (p.secs == now.secs && p.nanos < now.nanos)));
            if i < pre.len() {
                assert(pre[i] == rows[i]);
            }
        }
        if exists|i: int|
            0 <= i < pre.len() && (#[trigger] pre[i]).0 == x && (pre[i].1 matches Some(p) && (p.secs < now.secs || (
            p.secs == now.secs && p.nanos < now.nanos))) {
            let i = choose|i: int|
                0 <= i < pre.len() && (#[trigger] pre[i]).0 == x && (pre[i].1 matches Some(p) && (p.secs < now.secs
                    || (p.secs == now.secs && p.nanos < now.nanos)));
            assert(rows[i] == pre[i]);
        }
    }
}

/// A work item is counted late exactly when one of its unfinished
/// executions has a planned end strictly before `now`, and each late work
/// item is counted once.
pub proof fn lemma_late_items(rows: Seq<(u128, Option<Moment>, ProcessStatus)>, now: Moment, x: u128)
    ensures
        late_keys(rows, now).no_duplicates(),
        late_keys(rows, now).contains(x) <==> exists|i: int|
            0 <= i < rows.len() && (#[trigger] rows[i]).0 == x && (rows[i].1 matches Some(p) && (p.secs < now.secs || (
            p.secs == now.secs && p.nanos < now.nanos))),
{
    lemma_late_ids(rows, now, x);
    lemma_first_keys_distinct(
        rows.filter(|r: (u128, Option<Moment>, ProcessStatus)| r.1 matches Some(p) && moment_before(p, now)).map_values(
            |r: (u128, Option<Moment>, ProcessStatus)| r.0,
        ),
    );
}

/// The work items whose summary status is `st`.
pub open spec fn summary_is(rows: Seq<(u128, ProcessStatus)>, st: ProcessStatus) -> spec_fn(u128) -> bool {
    |x: u128| spec_summary(statuses_for(rows, x)) == Some(st)
}

/// The work items whose summary status is none of COMPLETED, IN_PROGRESS and
/// BLOCKED (PENDING, READY, PAUSED or CANCELLED).
pub open spec fn summary_is_other(rows: Seq<(u128, ProcessStatus)>) -> spec_fn(u128) -> bool {
    |x: u128|
        spec_summary(statuses_for(rows, x)) matches Some(st) && st != ProcessStatus::Completed && st
            != ProcessStatus::InProgress && st != ProcessStatus::Blocked
}

proof fn lemma_count_figures(rows: Seq<(u128, ProcessStatus)>, items: Seq<u128>)
    ensures
        count_figure(rows, items, 0) == items.filter(summary_is(rows, ProcessStatus::Completed)).len(),
        count_figure(rows, items, 1) == items.filter(summary_is(rows, ProcessStatus::InProgress)).len(),
        count_figure(rows, items, 2) == items.filter(summary_is(rows, ProcessStatus::Blocked)).len(),
        count_figure(rows, items, 3) == items.filter(summary_is_other(rows)).len(),
        (forall|i: int| 0 <= i < items.len() ==> statuses_for(rows, #[trigger] items[i]).len() > 0) ==> count_figure(
            rows,
            items,
            0,
        ) + count_figure(rows, items, 1) + count_figure(rows, items, 2) + count_figure(rows, items, 3)
            == items.len(),
    decreases items.len(),
{
    if items.len() > 0 {
        let pre = items.drop_last();
        let x = items.last();
        lemma_count_figures(rows, pre);
        assert(items == pre.push(x));
        pre.lemma_filter_push(x, summary_is(rows, ProcessStatus::Completed));
        pre.lemma_filter_push(x, summary_is(rows, ProcessStatus::InProgress));
        pre.lemma_filter_push(x, summary_is(rows, ProcessStatus::Blocked));
        pre.lemma_filter_push(x, summary_is_other(rows));
        crate::aggregate::lemma_summary_is_member(statuses_for(rows, x));
        if forall|i: int| 0 <= i < items.len() ==> statuses_for(rows, #[trigger] items[i]).len() > 0 {
            assert forall|i: int| 0 <= i < pre.len() implies statuses_for(rows, #[trigger] pre[i]).len() > 0 by {
                assert(pre[i] == items[i]);
            }
            assert(statuses_for(rows, items[items.len() - 1]).len() > 0);
        }
    }
}

proof fn lemma_first_keys_members(keys: Seq<u128>)
    ensures
        forall|i: int| 0 <= i < first_keys(keys).len() ==> keys.contains(#[trigger] first_keys(keys)[i]),
    decreases keys.len(),
{
    if keys.len() > 0 {
        let pre = keys.drop_last();
        lemma_first_keys_members(pre);
        let f = first_keys(keys);
        assert forall|i: int| 0 <= i < f.len() implies keys.contains(#[trigger] f[i]) by {
            if i < first_keys(pre).len() {
                assert(f[i] == first_keys(pre)[i]);
                let j = choose|j: int| 0 <= j < pre.len() && pre[j] == f[i];
                assert(keys[j] == f[i]);
            } else {
                assert(f[i] == keys.last());
                assert(keys[keys.len() - 1] == f[i]);
            }
        }
    }
}

proof fn lemma_listed_item_has_statuses(rows: Seq<(u128, ProcessStatus)>, x: u128)
    requires
        rows.map_values(|r: (u128, ProcessStatus)| r.0).contains(x),
    ensures
        statuses_for(rows, x).len() > 0,
    decreases rows.len(),
{
    let keys = rows.map_values(|r: (u128, ProcessStatus)| r.0);
    let j = choose|j: int| 0 <= j < keys.len() && keys[j] == x;
    if rows.last().0 != x {
        let pre = rows.drop_last();
        assert(j < rows.len() - 1);
        assert(pre.map_values(|r: (u128, ProcessStatus)| r.0)[j] == x);
        lemma_listed_item_has_statuses(pre, x);
    }
}

/// The dashboard counts each work item once, under its summary status: as
/// completed only when its summary is COMPLETED, as in progress only when it
/// is IN_PROGRESS, as blocked only when it is BLOCKED, and as pending when it
/// is any other status (PENDING, READY, PAUSED or CANCELLED); so the four
/// figures add up to the number of distinct work items.
pub proof fn lemma_dashboard_counts(rows: Seq<(u128, ProcessStatus)>)
    ensures
        ({
            let items = first_keys(rows.map_values(|r: (u128, ProcessStatus)| r.0));
            &&& count_figure(rows, items, 0) == items.filter(summary_is(rows, ProcessStatus::Completed)).len()
            &&& count_figure(rows, items, 1) == items.filter(summary_is(rows, ProcessStatus::InProgress)).len()
            &&& count_figure(rows, items, 2) == items.filter(summary_is(rows, ProcessStatus::Blocked)).len()
            &&& count_figure(rows, items, 3) == items.filter(summary_is_other(rows)).len()
            &&& count_figure(rows, items, 0) + count_figure(rows, items, 1) + count_figure(rows, items, 2)
                + count_figure(rows, items, 3) == items.len()
        }),
{
    let keys = rows.map_values(|r: (u128, ProcessStatus)| r.0);
    let items = first_keys(keys);
    lemma_first_keys_members(keys);
    assert forall|i: int| 0 <= i < items.len() implies statuses_for(rows, #[trigger] items[i]).len() > 0 by {
        assert(keys.contains(items[i]));
        lemma_listed_item_has_statuses(rows, items[i]);
    }
    lemma_count_figures(rows, items);
}

proof fn lemma_first_keys_len(keys: Seq<u128>)
    ensures
        first_keys(keys).len() <= keys.len(),
    decreases keys.len(),
{
    if keys.len() > 0 {
        lemma_first_keys_len(keys.drop_last());
    }
}

proof fn lemma_count_figure_len(rows: Seq<(u128, ProcessStatus)>, items: Seq<u128>, f: int)
    ensures
        count_figure(rows, items, f) <= items.len(),
    decreases items.len(),
{
    if items.len() > 0 {
        lemma_count_figure_len(rows, items.drop_last(), f);
    }
}

fn statuses_of(rows: &[(u128, ProcessStatus)], x: u128) -> (r: Vec<ProcessStatus>)
    ensures
        r@ == statuses_for(rows@, x),
{
    let mut r: Vec<ProcessStatus> = Vec::new();
    let mut i: usize = 0;
    while i < rows.len()
        invariant
            i <= rows@.len(),
            r@ == statuses_for(rows@.subrange(0, i as int), x),
        decreases rows@.len() - i,
    {
        proof {
            assert(rows@.subrange(0, i + 1).drop_last() =~= rows@.subrange(0, i as int));
        }
        let (k, s) = rows[i];
        if k == x {
            r.push(s);
        }
        i = i + 1;
    }
    assert(rows@.subrange(0, rows@.len() as int) =~= rows@);
    r
}

/// The dashboard's work item figures: each work item (known by its live
/// executions' statuses, `item_rows`) counts once, under its summary
/// status; `late_rows` are the unfinished executions with a planned end,
/// and a work item is late when one of them ends before `now`. `total` and
/// `completed_today` are counted by the store.
pub fn work_item_summary(
    item_rows: &[(u128, ProcessStatus)],
    late_rows: &[(u128, Option<Moment>, ProcessStatus)],
    now: Moment,
    total: i64,
    completed_today: i64,
) -> (r: WorkItemSummary)
    requires
        item_rows@.len() <= i64::MAX,
        late_rows@.len() <= i64::MAX,
    ensures
        ({
            let items = first_keys(item_rows@.map_values(|r: (u128, ProcessStatus)| r.0));
            &&& r.total == total
            &&& r.completed == count_figure(item_rows@, items, 0)
            &&& r.in_progress == count_figure(item_rows@, items, 1)
            &&& r.blocked == count_figure(item_rows@, items, 2)
            &&& r.pending == count_figure(item_rows@, items, 3)
            &&& r.late == late_keys(late_rows@, now).len()
            &&& r.completed_today == completed_today
            &&& r.completed == items.filter(summary_is(item_rows@, ProcessStatus::Completed)).len()
            &&& r.in_progress == items.filter(summary_is(item_rows@, ProcessStatus::InProgress)).len()
            &&& r.blocked == items.filter(summary_is(item_rows@, ProcessStatus::Blocked)).len()
            &&& r.pending == items.filter(summary_is_other(item_rows@)).len()
            &&& r.completed + r.in_progress + r.blocked + r.pending == items.len()
        }),
{
    proof {
        lemma_dashboard_counts(item_rows@);
    }
    let ghost keys = item_rows@.map_values(|r: (u128, ProcessStatus)| r.0);
    // distinct work items, in order of first appearance
    let mut items: Vec<u128> = Vec::new();
    let mut seen: HashSet<u128> = HashSet::new();
    let mut i: usize = 0;
    while i < item_rows.len()
        invariant
            i <= item_rows@.len(),
            keys == item_rows@.map_values(|r: (u128, ProcessStatus)| r.0),
            items@ == first_keys(keys.subrange(0, i as int)),
            forall|x: u128| seen@.contains(x) <==> items@.contains(x),
        decreases item_rows@.len() - i,
    {
        proof {
            assert(keys.subrange(0, i + 1).drop_last() =~= keys.subrange(0, i as int));
        }
        let (k, _) = item_rows[i];
        let ghost before = items@;
        let fresh = seen.insert(k);
        if fresh {
            items.push(k);
        }
        proof {
            if fresh {
                assert(items@ == before.push(k));
                assert(items@[before.len() as int] == k);
                assert forall|x: u128| seen@.contains(x) <==> items@.contains(x) by {
                    if items@.contains(x) && x != k {
                        let t = choose|t: int| 0 <= t < items@.len() && items@[t] == x;
                        assert(before[t] == x);
                    }
                    if before.contains(x) {
                        let t = choose|t: int| 0 <= t < before.len() && before[t] == x;
                        assert(items@[t] == x);
                    }
                }
            }
        }
        i = i + 1;
    }
    assert(keys.subrange(0, keys.len() as int) =~= keys);
    proof {
        lemma_first_keys_len(keys);
    }
    let mut completed: i64 = 0;
    let mut in_progress: i64 = 0;
    let mut blocked: i64 = 0;
    let mut pending: i64 = 0;
    let mut j: usize = 0;
    while j < items.len()
        invariant
            j <= items@.len(),
            items@.len() <= i64::MAX,
            completed == count_figure(item_rows@, items@.subrange(0, j as int), 0),
            in_progress == count_figure(item_rows@, items@.subrange(0, j as int), 1),
            blocked == count_figure(item_rows@, items@.subrange(0, j as int), 2),
            pending == count_figure(item_rows@, items@.subrange(0, j as int), 3),
        decreases items@.len() - j,
    {
        proof {
            assert(items@.subrange(0, j + 1).drop_last() =~= items@.subrange(0, j as int));
            lemma_count_figure_len(item_rows@, items@.subrange(0, j as int), 0);
            lemma_count_figure_len(item_rows@, items@.subrange(0, j as int), 1);
            lemma_count_figure_len(item_rows@, items@.subrange(0, j as int), 2);
            lemma_count_figure_len(item_rows@, items@.subrange(0, j as int), 3);
        }
        let st = statuses_of(item_rows, items[j]);
        match summarize_statuses(st.as_slice()) {
            Some(ProcessStatus::Completed) => {
                completed = completed + 1;
            },
            Some(ProcessStatus::InProgress) => {
                in_progress = in_progress + 1;
            },
            Some(ProcessStatus::Blocked) => {
                blocked = blocked + 1;
            },
            Some(_) => {
                pending = pending + 1;
            },
            None => {},
        }
        j = j + 1;
    }
    assert(items@.subrange(0, items@.len() as int) =~= items@);
    // distinct late work items
    let ghost lk = late_rows@.filter(|r: (u128, Option<Moment>, ProcessStatus)| r.1 matches Some(p) && moment_before(p, now)).map_values(
        |r: (u128, Option<Moment>, ProcessStatus)| r.0,
    );
    let mut late: Vec<u128> = Vec::new();
    let mut late_seen: HashSet<u128> = HashSet::new();
    let mut q: usize = 0;
    while q < late_rows.len()
        invariant
            q <= late_rows@.len(),
            forall|x: u128| late_seen@.contains(x) <==> late@.contains(x),
            late@ == first_keys(
                late_rows@.subrange(0, q as int).filter(|r: (u128, Option<Moment>, ProcessStatus)| r.1 matches Some(p) && moment_before(p, now)).map_values(
                    |r: (u128, Option<Moment>, ProcessStatus)| r.0,
                ),
            ),
        decreases late_rows@.len() - q,
    {
        let (k, planned, _) = late_rows[q];
        let is_late = match planned {
            Some(p) => is_before(p, now),
            None => false,
        };
        proof {
            let pre = late_rows@.subrange(0, q as int);
            let row = late_rows@[q as int];
            assert(late_rows@.subrange(0, q + 1) =~= pre.push(row));
            pre.lemma_filter_push(row, |r: (u128, Option<Moment>, ProcessStatus)| r.1 matches Some(p) && moment_before(p, now));
            let g = pre.filter(|r: (u128, Option<Moment>, ProcessStatus)| r.1 matches Some(p) && moment_before(p, now));
            if is_late {
                assert(g.push(row).map_values(|r: (u128, Option<Moment>, ProcessStatus)| r.0) =~= g.map_values(
                    |r: (u128, Option<Moment>, ProcessStatus)| r.0,
                ).push(k));
                assert(g.map_values(|r: (u128, Option<Moment>, ProcessStatus)| r.0).push(k).drop_last() =~= g.map_values(
                    |r: (u128, Option<Moment>, ProcessStatus)| r.0,
                ));
            }
        }
        let ghost before = late@;
        if is_late {
            let fresh = late_seen.insert(k);
            if fresh {
                late.push(k);
            }
            proof {
                if fresh {
                    assert(late@ == before.push(k));
                    assert(late@[before.len() as int] == k);
                    assert forall|x: u128| late_seen@.contains(x) <==> late@.contains(x) by {
                        if late@.contains(x) && x != k {
                            let t = choose|t: int| 0 <= t < late@.len() && late@[t] == x;
                            assert(before[t] == x);
                        }
                        if before.contains(x) {
                            let t = choose|t: int| 0 <= t < before.len() && before[t] == x;
                            assert(late@[t] == x);
                        }
                    }
                }
            }
        }
        q = q + 1;
    }
    assert(late_rows@.subrange(0, late_rows@.len() as int) =~= late_rows@);
    proof {
        lemma_first_keys_len(lk);
        broadcast use vstd::seq_lib::group_filter_ensures;
    }
    WorkItemSummary {
        total,
        completed,
        in_progress,
        blocked,
        pending,
        late: late.len() as i64,
        completed_today,
    }
}

// ---------------------------------------------------------------------------
// Process performance
// ---------------------------------------------------------------------------

/// A completed execution and its template.
#[derive(Debug)]
pub struct CompletedExecution {
    pub execution_id: u128,
    pub template_id: u128,
    pub template_name: String,
}

/// Averages of a template's completed executions, in seconds.
#[derive(Debug)]
pub struct ProcessPerformanceRow {
    pub template_id: u128,
    pub template_name: String,
    pub completed_count: i64,
    pub avg_active_seconds: Option<i64>,
    pub avg_waiting_seconds: Option<i64>,
    pub avg_lead_seconds: Option<i64>,
}

/// The breakdown computed for an execution, if its log had any event
/// (first entry for the execution).
pub open spec fn breakdown_of(durs: Seq<(u128, Durations)>, exec: u128) -> Option<Durations>
    decreases durs.len(),
{
    if durs.len() == 0 {
        None
    } else if durs[0].0 == exec {
        Some(durs[0].1)
    } else {
        breakdown_of(durs.drop_first(), exec)
    }
}

/// Which figure of a breakdown a list collects: 0 active, 1 waiting,
/// 2 lead.
pub open spec fn figure(d: Durations, which: int) -> Option<i64> {
    if which == 0 {
        Some(d.active_seconds)
    } else if which == 1 {
        d.waiting_seconds
    } else {
        d.lead_seconds
    }
}

/// The figures `which` of template `tpl` among the first `n` completed
/// executions that have a breakdown, in order.
pub open spec fn figures_of(
    completed: Seq<CompletedExecution>,
    durs: Seq<(u128, Durations)>,
    tpl: u128,
    which: int,
    n: nat,
) -> Seq<i64>
    decreases n,
{
    if n == 0 {
        Seq::empty()
    } else {
        let prev = figures_of(completed, durs, tpl, which, (n - 1) as nat);
        let c = completed[n - 1];
        if c.template_id == tpl && breakdown_of(durs, c.execution_id) is Some
            && figure(breakdown_of(durs, c.execution_id)->0, which) is Some {
            prev.push(figure(breakdown_of(durs, c.execution_id)->0, which)->0)
        } else {
            prev
        }
    }
}

/// The templates listed, in order: a completed execution lists its
/// template unless an earlier execution of that template had a breakdown.
pub open spec fn listed_templates(completed: Seq<CompletedExecution>, durs: Seq<(u128, Durations)>, n: nat) -> Seq<int>
    decreases n,
{
    if n == 0 {
        Seq::empty()
    } else {
        let prev = listed_templates(completed, durs, (n - 1) as nat);
        if figures_of(completed, durs, completed[n - 1].template_id, 0, (n - 1) as nat).len() == 0 {
            prev.push(n - 1)
        } else {
            prev
        }
    }
}

/// Sum of a list of figures.
pub open spec fn seq_sum(v: Seq<i64>) -> int
    decreases v.len(),
{
    if v.len() == 0 {
        0
    } else {
        seq_sum(v.drop_last()) + v.last()
    }
}

/// Every running sum of the list stays within 64 bits.
pub open spec fn sums_fit(v: Seq<i64>) -> bool {
    forall|k: int| 0 <= k <= v.len() ==> i64::MIN <= #[trigger] seq_sum(v.take(k)) <= i64::MAX
}

/// Integer division rounding toward zero.
pub open spec fn trunc_div(a: int, b: int) -> int {
    if a >= 0 {
        a / b
    } else {
        -((-a) / b)
    }
}

/// The mean of a list of figures, rounded toward zero; none for no figure.
pub open spec fn mean(v: Seq<i64>) -> Option<int> {
    if v.len() == 0 {
        None
    } else {
        Some(trunc_div(seq_sum(v), v.len() as int))
    }
}

/// The row of a listed template.
pub open spec fn performance_row_ok(
    completed: Seq<CompletedExecution>,
    durs: Seq<(u128, Durations)>,
    k: int,
    row: ProcessPerformanceRow,
) -> bool {
    let c = completed[k];
    let n = completed.len();
    &&& row.template_id == c.template_id
    &&& row.template_name@ == c.template_name@
    &&& row.completed_count == figures_of(completed, durs, c.template_id, 0, n).len()
    &&& opt_int(row.avg_active_seconds) == mean(figures_of(completed, durs, c.template_id, 0, n))
    &&& opt_int(row.avg_waiting_seconds) == mean(figures_of(completed, durs, c.template_id, 1, n))
    &&& opt_int(row.avg_lead_seconds) == mean(figures_of(completed, durs, c.template_id, 2, n))
}

pub open spec fn opt_int(o: Option<i64>) -> Option<int> {
    match o {
        Some(x) => Some(x as int),
        None => None,
    }
}

fn find_breakdown(durs: &[(u128, Durations)], exec: u128) -> (r: Option<Durations>)
    ensures
        r == breakdown_of(durs@, exec),
{
    let mut i: usize = 0;
    assert(durs@.subrange(0, durs@.len() as int) =~= durs@);
    while i < durs.len()
        invariant
            i <= durs@.len(),
            breakdown_of(durs@, exec) == breakdown_of(durs@.subrange(i as int, durs@.len() as int), exec),
        decreases durs@.len() - i,
    {
        proof {
            let rest = durs@.subrange(i as int, durs@.len() as int);
            assert(rest.drop_first() =~= durs@.subrange(i + 1, durs@.len() as int));
            assert(rest[0] == durs@[i as int]);
        }
        if durs[i].0 == exec {
            return Some(durs[i].1);
        }
        i = i + 1;
    }
    None
}

fn pick(d: &Durations, which: u8) -> (r: Option<i64>)
    requires
        which <= 2,
    ensures
        r == figure(*d, which as int),
{
    if which == 0 {
        Some(d.active_seconds)
    } else if which == 1 {
        d.waiting_seconds
    } else {
        d.lead_seconds
    }
}

fn collect_figures(completed: &[CompletedExecution], durs: &[(u128, Durations)], tpl: u128, which: u8, n: usize) -> (r: Vec<i64>)
    requires
        which <= 2,
        n <= completed@.len(),
    ensures
        r@ == figures_of(completed@, durs@, tpl, which as int, n as nat),
{
    let mut r: Vec<i64> = Vec::new();
    let mut i: usize = 0;
    while i < n
        invariant
            i <= n,
            n <= completed@.len(),
            which <= 2,
            r@ == figures_of(completed@, durs@, tpl, which as int, i as nat),
        decreases n - i,
    {
        if completed[i].template_id == tpl {
            match find_breakdown(durs, completed[i].execution_id) {
                Some(d) => match pick(&d, which) {
                    Some(x) => {
                        r.push(x);
                    },
                    None => {},
                },
                None => {},
            }
        }
        i = i + 1;
    }
    r
}

/// The mean of the figures, or `None` when a running sum leaves 64 bits
/// (`Some(None)` for no figure).
fn mean_of(v: &Vec<i64>) -> (r: Option<Option<i64>>)
    ensures
        r is Some <==> sums_fit(v@),
        r matches Some(m) ==> opt_int(m) == mean(v@),
{
    let mut s: i64 = 0;
    let mut i: usize = 0;
    while i < v.len()
        invariant
            i <= v@.len(),
            s == seq_sum(v@.take(i as int)),
            forall|k: int| 0 <= k <= i ==> i64::MIN <= #[trigger] seq_sum(v@.take(k)) <= i64::MAX,
        decreases v@.len() - i,
    {
        proof {
            assert(v@.take(i + 1).drop_last() =~= v@.take(i as int));
            assert(v@.take(i + 1).last() == v@[i as int]);
        }
        match s.checked_add(v[i]) {
            Some(t) => {
                s = t;
            },
            None => {
                assert(seq_sum(v@.take(i + 1)) == s + v@[i as int]);
                assert(!(i64::MIN <= seq_sum(v@.take(i + 1)) <= i64::MAX));
                return None;
            },
        }
        i = i + 1;
    }
    assert(v@.take(v@.len() as int) =~= v@);
    if v.len() == 0 {
        return Some(None);
    }
    let n = v.len() as u128;
    let neg = s < 0;
    let mag: u128 = if neg { (-(s as i128)) as u128 } else { s as u128 };
    let qm: u128 = mag / n;
    proof {
        assert(qm <= mag) by (nonlinear_arith)
            requires qm == mag / n, n >= 1;
    }
    let q: i64 = if neg {
        -(qm as i128) as i64
    } else {
        qm as i64
    };
    Some(Some(q))
}

proof fn lemma_figures_present(
    completed: Seq<CompletedExecution>,
    durs: Seq<(u128, Durations)>,
    tpl: u128,
    which: int,
    n: nat,
)
    requires
        n <= completed.len(),
    ensures
        figures_of(completed, durs, tpl, which, n).len() > 0 <==> exists|i: int|
            0 <= i < n && (#[trigger] completed[i]).template_id == tpl && breakdown_of(durs, completed[i].execution_id)
                is Some && figure(breakdown_of(durs, completed[i].execution_id)->0, which) is Some,
    decreases n,
{
    if n > 0 {
        lemma_figures_present(completed, durs, tpl, which, (n - 1) as nat);
        if exists|i: int|
            0 <= i < n && (#[trigger] completed[i]).template_id == tpl && breakdown_of(durs, completed[i].execution_id)
                is Some && figure(breakdown_of(durs, completed[i].execution_id)->0, which) is Some {
            let i = choose|i: int|
                0 <= i < n && (#[trigger] completed[i]).template_id == tpl && breakdown_of(durs, completed[i].execution_id)
                    is Some && figure(breakdown_of(durs, completed[i].execution_id)->0, which) is Some;
            if i < n - 1 {
                assert(figures_of(completed, durs, tpl, which, (n - 1) as nat).len() > 0);
            }
        }
    }
}

/// A template's row has an average exactly where there is something to
/// average: an active time average when one of its completed executions has
/// a breakdown, a waiting time average when one of them has a waiting time,
/// a lead time average when one of them has a lead time.
pub proof fn lemma_performance_row_presence(
    completed: Seq<CompletedExecution>,
    durs: Seq<(u128, Durations)>,
    k: int,
    row: ProcessPerformanceRow,
)
    requires
        0 <= k < completed.len(),
        performance_row_ok(completed, durs, k, row),
    ensures
        ({
            let tpl = completed[k].template_id;
            &&& row.avg_active_seconds is Some <==> exists|i: int|
                0 <= i < completed.len() && (#[trigger] completed[i]).template_id == tpl && breakdown_of(
                    durs,
                    completed[i].execution_id,
                ) is Some
            &&& row.avg_waiting_seconds is Some <==> exists|i: int|
                0 <= i < completed.len() && (#[trigger] completed[i]).template_id == tpl && breakdown_of(
                    durs,
                    completed[i].execution_id,
                ) is Some && breakdown_of(durs, completed[i].execution_id)->0.waiting_seconds is Some
            &&& row.avg_lead_seconds is Some <==> exists|i: int|
                0 <= i < completed.len() && (#[trigger] completed[i]).template_id == tpl && breakdown_of(
                    durs,
                    completed[i].execution_id,
                ) is Some && breakdown_of(durs, completed[i].execution_id)->0.lead_seconds is Some
        }),
{
    let tpl = completed[k].template_id;
    let n = completed.len();
    lemma_figures_present(completed, durs, tpl, 0, n);
    lemma_figures_present(completed, durs, tpl, 1, n);
    lemma_figures_present(completed, durs, tpl, 2, n);
}

/// Per-template averages of completed executions' durations. `completed`
/// lists the completed executions of the project with their templates,
/// `durs` the breakdown of every execution that has events. Templates are
/// listed in order of their first completed execution (an execution without
/// events lists its template again when no breakdown of that template came
/// before it); each row counts and averages its template's breakdowns.
/// `None` when a template's sum leaves 64 bits.
pub fn performance_rows(completed: &[CompletedExecution], durs: &[(u128, Durations)]) -> (r: Option<Vec<ProcessPerformanceRow>>)
    requires
        completed@.len() <= i64::MAX,
    ensures
        r is Some <==> (forall|k: int| 0 <= k < listed_templates(completed@, durs@, completed@.len() as nat).len() ==> {
            let tpl = completed@[#[trigger] listed_templates(completed@, durs@, completed@.len() as nat)[k]].template_id;
            &&& sums_fit(figures_of(completed@, durs@, tpl, 0, completed@.len() as nat))
            &&& sums_fit(figures_of(completed@, durs@, tpl, 1, completed@.len() as nat))
            &&& sums_fit(figures_of(completed@, durs@, tpl, 2, completed@.len() as nat))
        }),
        r matches Some(rows) ==> {
            &&& rows@.len() == listed_templates(completed@, durs@, completed@.len() as nat).len()
            &&& forall|k: int| 0 <= k < rows@.len() ==> performance_row_ok(
                completed@,
                durs@,
                listed_templates(completed@, durs@, completed@.len() as nat)[k],
                #[trigger] rows@[k],
            )
        },
{
    let n = completed.len();
    let ghost listed = listed_templates(completed@, durs@, n as nat);
    // which completed executions list their template
    let mut order: Vec<usize> = Vec::new();
    let mut i: usize = 0;
    while i < n
        invariant
            i <= n,
            n == completed@.len(),
            order@.map_values(|x: usize| x as int) == listed_templates(completed@, durs@, i as nat),
            forall|k: int| 0 <= k < order@.len() ==> order@[k] < i,
        decreases n - i,
    {
        let before = collect_figures(completed, durs, completed[i].template_id, 0, i);
        if before.len() == 0 {
            order.push(i);
        }
        assert(order@.map_values(|x: usize| x as int) =~= listed_templates(completed@, durs@, (i + 1) as nat));
        i = i + 1;
    }
    let mut rows: Vec<ProcessPerformanceRow> = Vec::new();
    let mut k: usize = 0;
    while k < order.len()
        invariant
            k <= order@.len(),
            n == completed@.len(),
            n <= i64::MAX,
            listed == listed_templates(completed@, durs@, n as nat),
            order@.map_values(|x: usize| x as int) == listed,
            forall|q: int| 0 <= q < order@.len() ==> order@[q] < n,
            rows@.len() == k,
            forall|q: int| 0 <= q < k ==> performance_row_ok(completed@, durs@, listed[q], #[trigger] rows@[q]),
            forall|q: int| 0 <= q < k ==> {
                let tpl = completed@[#[trigger] listed[q]].template_id;
                &&& sums_fit(figures_of(completed@, durs@, tpl, 0, n as nat))
                &&& sums_fit(figures_of(completed@, durs@, tpl, 1, n as nat))
                &&& sums_fit(figures_of(completed@, durs@, tpl, 2, n as nat))
            },
        decreases order@.len() - k,
    {
        let c = &completed[order[k]];
        assert(listed[k as int] == order@[k as int] as int);
        let actives = collect_figures(completed, durs, c.template_id, 0, n);
        let waits = collect_figures(completed, durs, c.template_id, 1, n);
        let leads = collect_figures(completed, durs, c.template_id, 2, n);
        let a = mean_of(&actives);
        let w = mean_of(&waits);
        let l = mean_of(&leads);
        match (a, w, l) {
            (Some(a), Some(w), Some(l)) => {
                proof {
                    lemma_figures_len(completed@, durs@, c.template_id, 0, n as nat);
                }
                rows.push(ProcessPerformanceRow {
                    template_id: c.template_id,
                    template_name: c.template_name.clone(),
                    completed_count: actives.len() as i64,
                    avg_active_seconds: a,
                    avg_waiting_seconds: w,
                    avg_lead_seconds: l,
                });
            },
            _ => {
                return None;
            },
        }
        k = k + 1;
    }
    Some(rows)
}

proof fn lemma_figures_len(
    completed: Seq<CompletedExecution>,
    durs: Seq<(u128, Durations)>,
    tpl: u128,
    which: int,
    n: nat,
)
    ensures
        figures_of(completed, durs, tpl, which, n).len() <= n,
    decreases n,
{
    if n > 0 {
        lemma_figures_len(completed, durs, tpl, which, (n - 1) as nat);
    }
}

// ---------------------------------------------------------------------------
// Activity timeline
// ---------------------------------------------------------------------------

/// One entry of a project's activity timeline, as read from the store.
#[derive(Debug)]
pub struct ActivityRow {
    pub timestamp: String,
    pub event_type: String,
    pub user_name: String,
    pub work_item_name: String,
    pub section_path: String,
    pub note: Option<String>,
}

// ---------------------------------------------------------------------------
// CSV export
// ---------------------------------------------------------------------------

/// One line of the export: section path, work item, type, priority and the
/// processes with their statuses.
#[derive(Debug)]
pub struct ExportRow {
    pub path: String,
    pub item: String,
    pub kind: String,
    pub priority: String,
    pub processes: String,
}

/// The header line (with a byte order mark, so spreadsheets read UTF-8).
pub open spec fn csv_header() -> Seq<char> {
    "\u{FEFF}Bölüm;İş Kalemi;Tip;Öncelik;Süreçler\r\n"@
}

/// A free text field: `;` would split the line, so it becomes `,`.
pub open spec fn csv_field(s: Seq<char>) -> Seq<char> {
    replace_all(s, ";"@, ","@)
}

proof fn lemma_no_semicolon_left(s: Seq<char>)
    ensures
        forall|i: int| 0 <= i < replace_all(s, ";"@, ","@).len() ==> #[trigger] replace_all(s, ";"@, ","@)[i] != ';',
    decreases s.len(),
{
    reveal_strlit(";");
    reveal_strlit(",");
    if s.len() > 0 {
        let r = replace_all(s, ";"@, ","@);
        if s.len() >= 1 && s.subrange(0, 1) == ";"@ {
            let rest = s.subrange(1, s.len() as int);
            lemma_no_semicolon_left(rest);
            let tail = replace_all(rest, ";"@, ","@);
            assert(r == ","@ + tail);
            assert forall|i: int| 0 <= i < r.len() implies #[trigger] r[i] != ';' by {
                if i >= 1 {
                    assert(r[i] == tail[i - 1]);
                }
            }
        } else {
            let rest = s.drop_first();
            lemma_no_semicolon_left(rest);
            let tail = replace_all(rest, ";"@, ","@);
            assert(r == seq![s[0]] + tail);
            assert(s[0] != ';') by {
                if s[0] == ';' {
                    assert(s.subrange(0, 1) =~= ";"@);
                }
            }
            assert forall|i: int| 0 <= i < r.len() implies #[trigger] r[i] != ';' by {
                if i >= 1 {
                    assert(r[i] == tail[i - 1]);
                }
            }
        }
    }
}

/// A free-text field of the export never holds the `;` separator, so it
/// cannot split a line into extra columns.
pub proof fn lemma_csv_field_has_no_separator(s: Seq<char>)
    ensures
        forall|i: int| 0 <= i < csv_field(s).len() ==> #[trigger] csv_field(s)[i] != ';',
{
    lemma_no_semicolon_left(s);
}

/// One line of the export.
pub open spec fn csv_line(r: ExportRow) -> Seq<char> {
    csv_field(r.path@) + ";"@ + csv_field(r.item@) + ";"@ + r.kind@ + ";"@ + r.priority@ + ";"@
        + csv_field(r.processes@) + "\r\n"@
}

/// The lines of the first `n` rows.
pub open spec fn csv_lines(rows: Seq<ExportRow>, n: nat) -> Seq<char>
    decreases n,
{
    if n == 0 {
        Seq::empty()
    } else {
        csv_lines(rows, (n - 1) as nat) + csv_line(rows[n - 1])
    }
}

/// The semicolon separated export of a project's work items.
pub fn export_csv(rows: &[ExportRow]) -> (r: String)
    ensures
        r@ == csv_header() + csv_lines(rows@, rows@.len()),
{
    proof {
        reveal_strlit(";");
        reveal_strlit(",");
    }
    let mut out = owned("\u{FEFF}Bölüm;İş Kalemi;Tip;Öncelik;Süreçler\r\n");
    let mut i: usize = 0;
    while i < rows.len()
        invariant
            i <= rows@.len(),
            out@ == csv_header() + csv_lines(rows@, i as nat),
        decreases rows@.len() - i,
    {
        let row = &rows[i];
        proof {
            reveal_strlit(";");
        }
        let a = replace_text(row.path.as_str(), ";", ",");
        out.append(a.as_str());
        out.append(";");
        let b = replace_text(row.item.as_str(), ";", ",");
        out.append(b.as_str());
        out.append(";");
        out.append(row.kind.as_str());
        out.append(";");
        out.append(row.priority.as_str());
        out.append(";");
        let c = replace_text(row.processes.as_str(), ";", ",");
        out.append(c.as_str());
        out.append("\r\n");
        proof {
            assert(csv_lines(rows@, (i + 1) as nat) == csv_lines(rows@, i as nat) + csv_line(rows@[i as int]));
            assert(out@ =~= csv_header() + csv_lines(rows@, (i + 1) as nat));
        }
        i = i + 1;
    }
    out
}

} // verus!
