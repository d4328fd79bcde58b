//! Status aggregation: one summary status for a work item (a matrix cell,
//! a dashboard figure) out of the statuses of its process executions.

use vstd::prelude::*;
use crate::entities::ProcessStatus;

verus! {

/// Some status other than CANCELLED occurs.
pub open spec fn has_live(s: Seq<ProcessStatus>) -> bool {
    exists|i: int| 0 <= i < s.len() && s[i] != ProcessStatus::Cancelled
}

/// Every status other than CANCELLED is COMPLETED.
pub open spec fn live_all_completed(s: Seq<ProcessStatus>) -> bool {
    forall|i: int|
        0 <= i < s.len() && s[i] != ProcessStatus::Cancelled ==> s[i] == ProcessStatus::Completed
}

/// The summary: none for no execution; CANCELLED when every execution is
/// cancelled; otherwise, ignoring cancelled ones, the most critical status in
/// the order BLOCKED, IN_PROGRESS, PAUSED, READY, then COMPLETED when all are
/// completed and PENDING for what remains.
pub open spec fn spec_summary(s: Seq<ProcessStatus>) -> Option<ProcessStatus> {
    if s.len() == 0 {
        None
    } else if !has_live(s) {
        Some(ProcessStatus::Cancelled)
    } else if s.contains(ProcessStatus::Blocked) {
        Some(ProcessStatus::Blocked)
    } else if s.contains(ProcessStatus::InProgress) {
        Some(ProcessStatus::InProgress)
    } else if s.contains(ProcessStatus::Paused) {
        Some(ProcessStatus::Paused)
    } else if s.contains(ProcessStatus::Ready) {
        Some(ProcessStatus::Ready)
    } else if live_all_completed(s) {
        Some(ProcessStatus::Completed)
    } else {
        Some(ProcessStatus::Pending)
    }
}

fn contains_status(s: &[ProcessStatus], x: ProcessStatus) -> (r: bool)
    ensures
        r == s@.contains(x),
{
    let n = s.len();
    let mut i: usize = 0;
    while i < n
        invariant
            n == s@.len(),
            i <= n,
            forall|j: int| 0 <= j < i ==> s@[j] != x,
        decreases n - i,
    {
        if s[i] == x {
            assert(s@[i as int] == x);
            return true;
        }
        i = i + 1;
    }
    false
}

/// One summary status from the statuses of a work item's executions.
pub fn summarize_statuses(statuses: &[ProcessStatus]) -> (r: Option<ProcessStatus>)
    ensures
        r == spec_summary(statuses@),
{
    let n = statuses.len();
    if n == 0 {
        return None;
    }
    // is there a live (non-cancelled) status, and are all live ones completed?
    let mut live = false;
    let mut all_completed = true;
    let mut i: usize = 0;
    while i < n
        invariant
            n == statuses@.len(),
            i <= n,
            live == (exists|j: int| 0 <= j < i && statuses@[j] != ProcessStatus::Cancelled),
            all_completed == (forall|j: int|
                0 <= j < i && statuses@[j] != ProcessStatus::Cancelled ==> statuses@[j]
                    == ProcessStatus::Completed),
        decreases n - i,
    {
        let s = statuses[i];
        if s != ProcessStatus::Cancelled {
            live = true;
            if s != ProcessStatus::Completed {
                all_completed = false;
            }
        }
        i = i + 1;
    }
    if !live {
        return Some(ProcessStatus::Cancelled);
    }
    if contains_status(statuses, ProcessStatus::Blocked) {
        return Some(ProcessStatus::Blocked);
    }
    if contains_status(statuses, ProcessStatus::InProgress) {
        return Some(ProcessStatus::InProgress);
    }
    if contains_status(statuses, ProcessStatus::Paused) {
        return Some(ProcessStatus::Paused);
    }
    if contains_status(statuses, ProcessStatus::Ready) {
        return Some(ProcessStatus::Ready);
    }
    if all_completed {
        return Some(ProcessStatus::Completed);
    }
    Some(ProcessStatus::Pending)
}

/// The summary depends only on which statuses occur, not on their order or
/// multiplicity.
pub proof fn lemma_summary_depends_on_set(a: Seq<ProcessStatus>, b: Seq<ProcessStatus>)
    requires
        a.to_set() == b.to_set(),
    ensures
        spec_summary(a) == spec_summary(b),
{
    assert forall|x: ProcessStatus| a.contains(x) <==> b.contains(x) by {
        assert(a.to_set().contains(x) == a.contains(x));
        assert(b.to_set().contains(x) == b.contains(x));
    }
    assert(a.len() == 0 <==> b.len() == 0) by {
        if a.len() > 0 {
            assert(a.contains(a[0]));
        }
        if b.len() > 0 {
            assert(b.contains(b[0]));
        }
    }
    assert(has_live(a) <==> has_live(b)) by {
        if has_live(a) {
            let i = choose|i: int| 0 <= i < a.len() && a[i] != ProcessStatus::Cancelled;
            assert(a.contains(a[i]));
            let j = choose|j: int| 0 <= j < b.len() && b[j] == a[i];
        }
        if has_live(b) {
            let i = choose|i: int| 0 <= i < b.len() && b[i] != ProcessStatus::Cancelled;
            assert(b.contains(b[i]));
            let j = choose|j: int| 0 <= j < a.len() && a[j] == b[i];
        }
    }
    assert(live_all_completed(a) <==> live_all_completed(b)) by {
        if live_all_completed(a) {
            assert forall|i: int|
                0 <= i < b.len() && b[i] != ProcessStatus::Cancelled implies b[i]
                    == ProcessStatus::Completed by {
                assert(b.contains(b[i]));
                let j = choose|j: int| 0 <= j < a.len() && a[j] == b[i];
            }
        }
        if live_all_completed(b) {
            assert forall|i: int|
                0 <= i < a.len() && a[i] != ProcessStatus::Cancelled implies a[i]
                    == ProcessStatus::Completed by {
                assert(a.contains(a[i]));
                let j = choose|j: int| 0 <= j < b.len() && b[j] == a[i];
            }
        }
    }
}

/// The summary of a non-empty list is one of its statuses.
pub proof fn lemma_summary_is_member(s: Seq<ProcessStatus>)
    ensures
        spec_summary(s) matches Some(x) ==> s.contains(x),
        spec_summary(s) is None <==> s.len() == 0,
{
    if s.len() > 0 {
        if !has_live(s) {
            assert(s[0] == ProcessStatus::Cancelled);
        } else if !s.contains(ProcessStatus::Blocked) && !s.contains(ProcessStatus::InProgress)
            && !s.contains(ProcessStatus::Paused) && !s.contains(ProcessStatus::Ready) {
            let i = choose|i: int| 0 <= i < s.len() && s[i] != ProcessStatus::Cancelled;
            if live_all_completed(s) {
                assert(s[i] == ProcessStatus::Completed);
            } else {
                let k = choose|k: int|
                    0 <= k < s.len() && s[k] != ProcessStatus::Cancelled && s[k]
                        != ProcessStatus::Completed;
                assert(s[k] != ProcessStatus::Blocked) by {
                    if s[k] == ProcessStatus::Blocked {
                        assert(s.contains(s[k]));
                    }
                }
                assert(s[k] != ProcessStatus::InProgress) by {
                    if s[k] == ProcessStatus::InProgress {
                        assert(s.contains(s[k]));
                    }
                }
                assert(s[k] != ProcessStatus::Paused) by {
                    if s[k] == ProcessStatus::Paused {
                        assert(s.contains(s[k]));
                    }
                }
                assert(s[k] != ProcessStatus::Ready) by {
                    if s[k] == ProcessStatus::Ready {
                        assert(s.contains(s[k]));
                    }
                }
                assert(s[k] == ProcessStatus::Pending);
            }
        }
    }
}

/// The summary follows the priority BLOCKED > IN_PROGRESS > PAUSED > READY >
/// PENDING > COMPLETED among the executions that are not cancelled: each
/// status is the summary exactly when it occurs and no status before it in
/// that order does; COMPLETED needs every execution completed or cancelled;
/// CANCELLED is the summary exactly when every execution is cancelled.
pub proof fn lemma_summary_priority(s: Seq<ProcessStatus>)
    ensures
        spec_summary(s) == Some(ProcessStatus::Cancelled) <==> (s.len() > 0 && forall|i: int|
            0 <= i < s.len() ==> #[trigger] s[i] == ProcessStatus::Cancelled),
        spec_summary(s) == Some(ProcessStatus::Blocked) <==> s.contains(ProcessStatus::Blocked),
        spec_summary(s) == Some(ProcessStatus::InProgress) <==> (s.contains(ProcessStatus::InProgress)
            && !s.contains(ProcessStatus::Blocked)),
        spec_summary(s) == Some(ProcessStatus::Paused) <==> (s.contains(ProcessStatus::Paused) && !s.contains(
            ProcessStatus::Blocked,
        ) && !s.contains(ProcessStatus::InProgress)),
        spec_summary(s) == Some(ProcessStatus::Ready) <==> (s.contains(ProcessStatus::Ready) && !s.contains(
            ProcessStatus::Blocked,
        ) && !s.contains(ProcessStatus::InProgress) && !s.contains(ProcessStatus::Paused)),
        spec_summary(s) == Some(ProcessStatus::Pending) <==> (s.contains(ProcessStatus::Pending) && !s.contains(
            ProcessStatus::Blocked,
        ) && !s.contains(ProcessStatus::InProgress) && !s.contains(ProcessStatus::Paused) && !s.contains(
            ProcessStatus::Ready,
        )),
        spec_summary(s) == Some(ProcessStatus::Completed) <==> (s.contains(ProcessStatus::Completed) && forall|i: int|
            0 <= i < s.len() ==> #[trigger] s[i] == ProcessStatus::Completed || s[i] == ProcessStatus::Cancelled),
{
    if s.contains(ProcessStatus::Pending) {
        let i = choose|i: int| 0 <= i < s.len() && s[i] == ProcessStatus::Pending;
        assert(s[i] != ProcessStatus::Cancelled);
        assert(!live_all_completed(s));
    }
    if s.contains(ProcessStatus::Completed) {
        let i = choose|i: int| 0 <= i < s.len() && s[i] == ProcessStatus::Completed;
        assert(s[i] != ProcessStatus::Cancelled);
        assert(has_live(s));
    }
    if s.len() > 0 && !has_live(s) {
        assert forall|i: int| 0 <= i < s.len() implies #[trigger] s[i] == ProcessStatus::Cancelled by {
            if s[i] != ProcessStatus::Cancelled {
                assert(has_live(s));
            }
        }
    }
    if has_live(s) {
        let i = choose|i: int| 0 <= i < s.len() && s[i] != ProcessStatus::Cancelled;
        if !s.contains(ProcessStatus::Blocked) && !s.contains(ProcessStatus::InProgress) && !s.contains(
            ProcessStatus::Paused,
        ) && !s.contains(ProcessStatus::Ready) {
            if live_all_completed(s) {
                assert(s[i] == ProcessStatus::Completed);
                assert forall|k: int| 0 <= k < s.len() implies #[trigger] s[k] == ProcessStatus::Completed || s[k]
                    == ProcessStatus::Cancelled by {}
            } else {
                let k = choose|k: int| 0 <= k < s.len() && s[k] != ProcessStatus::Cancelled && s[k] != ProcessStatus::Completed;
                if s[k] == ProcessStatus::Blocked || s[k] == ProcessStatus::InProgress || s[k] == ProcessStatus::Paused
                    || s[k] == ProcessStatus::Ready {
                    assert(false);
                }
                assert(s[k] == ProcessStatus::Pending);
            }
        }
    }
    if s.len() > 0 && (forall|i: int| 0 <= i < s.len() ==> #[trigger] s[i] == ProcessStatus::Cancelled) {
        assert(s[0] == ProcessStatus::Cancelled);
    }
}


/// A blocked execution always shows: any list holding BLOCKED summarises to
/// BLOCKED.
pub proof fn lemma_blocked_dominates(s: Seq<ProcessStatus>)
    requires
        s.contains(ProcessStatus::Blocked),
    ensures
        spec_summary(s) == Some(ProcessStatus::Blocked),
{
    let i = choose|i: int| 0 <= i < s.len() && s[i] == ProcessStatus::Blocked;
    assert(s[i] != ProcessStatus::Cancelled);
}

} // verus!
