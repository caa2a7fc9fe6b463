//! Lists of runs: their order, looking one up, counting, and what is shown of
//! a run that is being cancelled.

use vstd::prelude::*;
use vstd::string::*;
use std::collections::HashMap;

use crate::components::run_row;
use crate::components::run_row::{RunRow, RunRowInput};
use crate::github::types;
use crate::github::types::{RunStatus, WorkflowRun};
use crate::text;

verus! {

/// Where a run goes in a list that has the newest first: behind every run that
/// started no earlier.
pub open spec fn place_of(runs: Seq<types::RunView>, run: types::RunView) -> int
    decreases runs.len(),
{
    if runs.len() > 0 && run.created_at.after(runs.last().created_at) {
        place_of(runs.drop_last(), run)
    } else {
        runs.len() as int
    }
}

/// The runs with the newest first; those that started together stay in their
/// order.
pub open spec fn newest_first(runs: Seq<types::RunView>) -> Seq<types::RunView>
    decreases runs.len(),
{
    if runs.len() == 0 {
        Seq::empty()
    } else {
        let rest = newest_first(runs.drop_last());
        rest.insert(place_of(rest, runs.last()), runs.last())
    }
}

/// Whether no run stands before one that started later.
pub open spec fn is_newest_first(runs: Seq<types::RunView>) -> bool {
    forall|i: int, j: int|
        0 <= i < j < runs.len() ==> !(#[trigger] runs[j]).created_at.after(
            (#[trigger] runs[i]).created_at,
        )
}

/// Everything behind a run's place started before it, everything ahead did
/// not.
proof fn lemma_place_splits(runs: Seq<types::RunView>, run: types::RunView)
    requires
        is_newest_first(runs),
    ensures
        0 <= place_of(runs, run) <= runs.len(),
        forall|i: int|
            place_of(runs, run) <= i < runs.len() ==> run.created_at.after(
                (#[trigger] runs[i]).created_at,
            ),
        forall|i: int|
            0 <= i < place_of(runs, run) ==> !run.created_at.after(
                (#[trigger] runs[i]).created_at,
            ),
    decreases runs.len(),
{
    if runs.len() > 0 {
        let init = runs.drop_last();
        if run.created_at.after(runs.last().created_at) {
            assert forall|i: int, j: int| 0 <= i < j < init.len() implies !(
            #[trigger] init[j]).created_at.after((#[trigger] init[i]).created_at) by {
                assert(init[i] == runs[i] && init[j] == runs[j]);
            }
            lemma_place_splits(init, run);
            assert forall|i: int| 0 <= i < place_of(runs, run) implies !run.created_at.after(
                (#[trigger] runs[i]).created_at,
            ) by {
                assert(init[i] == runs[i]);
            }
            assert forall|i: int|
                place_of(runs, run) <= i < runs.len() implies run.created_at.after(
                (#[trigger] runs[i]).created_at,
            ) by {
                if i < init.len() {
                    assert(init[i] == runs[i]);
                }
            }
        } else {
            assert forall|i: int| 0 <= i < runs.len() implies !run.created_at.after(
                (#[trigger] runs[i]).created_at,
            ) by {
                let last = runs.len() - 1;
                assert(i < last ==> !runs[last].created_at.after(runs[i].created_at));
            }
        }
    }
}

/// The list has the newest first, and the same runs as before.
pub proof fn law_newest_first(runs: Seq<types::RunView>)
    ensures
        is_newest_first(newest_first(runs)),
        newest_first(runs).to_multiset() == runs.to_multiset(),
        newest_first(runs).len() == runs.len(),
    decreases runs.len(),
{
    if runs.len() == 0 {
        assert(newest_first(runs) =~= runs);
    } else {
        let init = runs.drop_last();
        let run = runs.last();
        law_newest_first(init);
        let rest = newest_first(init);
        let k = place_of(rest, run);
        lemma_place_splits(rest, run);
        let all = newest_first(runs);
        assert(all == rest.insert(k, run));
        assert forall|i: int, j: int| 0 <= i < j < all.len() implies !(
        #[trigger] all[j]).created_at.after((#[trigger] all[i]).created_at) by {
            if j < k {
                assert(all[i] == rest[i] && all[j] == rest[j]);
            } else if j == k {
                assert(all[i] == rest[i]);
            } else if i == k {
                assert(all[j] == rest[j - 1]);
            } else if i < k {
                assert(all[i] == rest[i] && all[j] == rest[j - 1]);
            } else {
                assert(all[i] == rest[i - 1] && all[j] == rest[j - 1]);
            }
        }
        all.to_multiset_ensures();
        init.to_multiset_ensures();
        assert(all.remove(k) =~= rest);
        assert(all.contains(all[k]));
        assert(all.to_multiset() =~= rest.to_multiset().insert(run));
        assert(init.push(run) =~= runs);
    }
}

/// Put the newest runs first.
pub fn sort_runs(runs: Vec<WorkflowRun>) -> (r: Vec<WorkflowRun>)
    ensures
        types::run_views(r@) == newest_first(types::run_views(runs@)),
{
    let mut out: Vec<WorkflowRun> = Vec::new();
    let ghost views = types::run_views(runs@);
    assert(types::run_views(out@) =~= newest_first(views.take(0)));
    for run in it: runs
        invariant
            it.seq() == runs@,
            views == types::run_views(runs@),
            types::run_views(out@) == newest_first(views.take(it.index() as int)),
    {
        let ghost i = it.index() as int;
        let ghost rest = types::run_views(out@);
        let mut k: usize = out.len();
        assert(rest.take(k as int) =~= rest);
        while k > 0 && run.created_at.is_after(out[k - 1].created_at)
            invariant
                k <= out@.len(),
                rest == types::run_views(out@),
                place_of(rest, run@) == place_of(rest.take(k as int), run@),
            decreases k,
        {
            assert(rest.take(k as int).last() == out@[k - 1]@);
            assert(rest.take(k as int).drop_last() =~= rest.take(k - 1));
            k -= 1;
        }
        proof {
            if k > 0 {
                assert(rest.take(k as int).last() == out@[k - 1]@);
            }
            assert(place_of(rest, run@) == k);
            assert(views[i] == run@);
            assert(views.take(i + 1).drop_last() =~= views.take(i));
        }
        out.insert(k, run);
        assert(types::run_views(out@) =~= rest.insert(k as int, run@));
    }
    assert(views.take(views.len() as int) =~= views);
    out
}

/// The first run under an id.
pub open spec fn find_run(runs: Seq<types::RunView>, id: u64) -> Option<types::RunView>
    decreases runs.len(),
{
    if runs.len() == 0 {
        None
    } else if runs[0].id == id {
        Some(runs[0])
    } else {
        find_run(runs.skip(1), id)
    }
}

/// Where the first run under an id stands.
pub fn find(runs: &Vec<WorkflowRun>, id: u64) -> (r: Option<usize>)
    ensures
        match r {
            Some(i) => i < runs@.len() && find_run(types::run_views(runs@), id) == Some(
                runs@[i as int]@,
            ) && runs@[i as int].id == id,
            None => find_run(types::run_views(runs@), id) is None,
        },
{
    let ghost views = types::run_views(runs@);
    let mut i: usize = 0;
    assert(views.skip(0) =~= views);
    while i < runs.len()
        invariant
            i <= runs@.len(),
            views == types::run_views(runs@),
            find_run(views, id) == find_run(views.skip(i as int), id),
        decreases runs@.len() - i,
    {
        assert(views.skip(i as int)[0] == runs@[i as int]@);
        if runs[i].id == id {
            return Some(i);
        }
        assert(views.skip(i as int).skip(1) =~= views.skip(i + 1));
        i += 1;
    }
    None
}

/// What is shown of a run that may be being cancelled: the API keeps reporting
/// it in progress until it has finished stopping.
pub open spec fn overlaid(
    run: types::RunView,
    cancelling: Map<u64, RunStatus>,
) -> types::RunView {
    if cancelling.dom().contains(run.id) {
        types::RunView { status: RunStatus::Cancelling, ..run }
    } else {
        run
    }
}

/// What is shown of runs that may be being cancelled.
pub open spec fn all_overlaid(
    runs: Seq<types::RunView>,
    cancelling: Map<u64, RunStatus>,
) -> Seq<types::RunView> {
    runs.map_values(|r: types::RunView| overlaid(r, cancelling))
}

/// Show the runs being cancelled as such.
pub fn overlay(runs: Vec<WorkflowRun>, cancelling: &HashMap<u64, RunStatus>) -> (r: Vec<
    WorkflowRun,
>)
    ensures
        types::run_views(r@) == all_overlaid(types::run_views(runs@), cancelling@),
{
    broadcast use vstd::std_specs::hash::group_hash_axioms;

    let mut out: Vec<WorkflowRun> = Vec::new();
    let ghost wanted = all_overlaid(types::run_views(runs@), cancelling@);
    assert(types::run_views(out@) =~= wanted.take(0));
    for run in it: runs
        invariant
            it.seq() == runs@,
            wanted == all_overlaid(types::run_views(runs@), cancelling@),
            types::run_views(out@) == wanted.take(it.index() as int),
    {
        let ghost i = it.index() as int;
        let ghost given = run@;
        let mut shown: WorkflowRun = run;
        if cancelling.contains_key(&shown.id) {
            shown.status = RunStatus::Cancelling;
        }
        let ghost before = out@;
        out.push(shown);
        assert(wanted[i] == overlaid(given, cancelling@));
        assert(types::run_views(out@) =~= types::run_views(before).push(shown@));
        assert(types::run_views(out@) =~= wanted.take(i + 1));
    }
    assert(wanted.take(wanted.len() as int) =~= wanted);
    out
}

/// What is still being cancelled once these runs came in: a run that completed
/// is settled.
pub open spec fn settled(
    cancelling: Map<u64, RunStatus>,
    runs: Seq<types::RunView>,
) -> Map<u64, RunStatus>
    decreases runs.len(),
{
    if runs.len() == 0 {
        cancelling
    } else {
        let rest = settled(cancelling, runs.drop_last());
        if runs.last().status is Completed {
            rest.remove(runs.last().id)
        } else {
            rest
        }
    }
}

/// Settle the runs that completed.
pub fn settle(cancelling: &mut HashMap<u64, RunStatus>, runs: &Vec<WorkflowRun>)
    ensures
        final(cancelling)@ == settled(old(cancelling)@, types::run_views(runs@)),
{
    broadcast use vstd::std_specs::hash::group_hash_axioms;

    let ghost start = cancelling@;
    let ghost views = types::run_views(runs@);
    let mut i: usize = 0;
    assert(views.take(0) =~= Seq::empty());
    while i < runs.len()
        invariant
            i <= runs@.len(),
            views == types::run_views(runs@),
            cancelling@ == settled(start, views.take(i as int)),
        decreases runs@.len() - i,
    {
        assert(views.take(i + 1).drop_last() =~= views.take(i as int));
        assert(views.take(i + 1).last() == runs@[i as int]@);
        if runs[i].status == RunStatus::Completed {
            let _was: Option<RunStatus> = cancelling.remove(&runs[i].id);
        }
        i += 1;
    }
    assert(views.take(i as int) =~= views);
}

/// The runs with the one under `id`, if it is shown as being cancelled, back to
/// a status.
pub open spec fn restored(
    runs: Seq<types::RunView>,
    id: u64,
    status: RunStatus,
) -> Seq<types::RunView> {
    runs.map_values(
        |r: types::RunView|
            if r.id == id && r.status is Cancelling {
                types::RunView { status, ..r }
            } else {
                r
            },
    )
}

/// Put a run that could not be cancelled back to its status.
pub fn restore(runs: &Vec<WorkflowRun>, id: u64, status: RunStatus) -> (r: Vec<WorkflowRun>)
    ensures
        types::run_views(r@) == restored(types::run_views(runs@), id, status),
{
    let mut out: Vec<WorkflowRun> = Vec::new();
    let ghost views = types::run_views(runs@);
    let mut i: usize = 0;
    assert(types::run_views(out@) =~= restored(views, id, status).take(0));
    while i < runs.len()
        invariant
            i <= runs@.len(),
            views == types::run_views(runs@),
            types::run_views(out@) == restored(views, id, status).take(i as int),
        decreases runs@.len() - i,
    {
        let mut run: WorkflowRun = runs[i].clone();
        if run.id == id && run.status == RunStatus::Cancelling {
            run.status = status;
        }
        let ghost before = out@;
        out.push(run);
        assert(views[i as int] == runs@[i as int]@);
        assert(restored(views, id, status)[i as int] == run@);
        i += 1;
        assert(types::run_views(out@) =~= types::run_views(before).push(run@));
        assert(types::run_views(out@) =~= restored(views, id, status).take(i as int));
    }
    assert(restored(views, id, status).take(i as int) =~= restored(views, id, status));
    out
}

/// Whether a run went wrong.
pub open spec fn is_failing(run: types::RunView) -> bool {
    run.conclusion matches Some(c) && c.failed()
}

/// The runs that went wrong.
pub open spec fn failing(runs: Seq<types::RunView>) -> nat {
    runs.filter(|r: types::RunView| is_failing(r)).len()
}

/// The runs at work.
pub open spec fn running(runs: Seq<types::RunView>) -> nat {
    runs.filter(|r: types::RunView| r.status.active()).len()
}

/// Count the runs that went wrong, and those at work.
pub fn count(runs: &Vec<WorkflowRun>) -> (r: (usize, usize))
    ensures
        r.0 == failing(types::run_views(runs@)),
        r.1 == running(types::run_views(runs@)),
        r.0 <= runs@.len(),
        r.1 <= runs@.len(),
{
    let ghost views = types::run_views(runs@);
    let ghost bad = |r: types::RunView| is_failing(r);
    let ghost busy = |r: types::RunView| r.status.active();
    let mut f: usize = 0;
    let mut a: usize = 0;
    let mut i: usize = 0;
    proof {
        reveal(Seq::filter);
        assert(views.take(0).filter(bad).len() == 0);
        assert(views.take(0).filter(busy).len() == 0);
    }
    while i < runs.len()
        invariant
            i <= runs.len(),
            f <= i,
            a <= i,
            views == types::run_views(runs@),
            bad == (|r: types::RunView| is_failing(r)),
            busy == (|r: types::RunView| r.status.active()),
            f == views.take(i as int).filter(bad).len(),
            a == views.take(i as int).filter(busy).len(),
        decreases runs@.len() - i,
    {
        proof {
            let run = runs@[i as int]@;
            assert(views.take(i + 1) =~= views.take(i as int).push(run));
            views.take(i as int).lemma_filter_push(run, bad);
            views.take(i as int).lemma_filter_push(run, busy);
        }
        if let Some(conclusion) = runs[i].conclusion {
            if conclusion.is_failure() {
                f += 1;
            }
        }
        if runs[i].status.is_active() {
            a += 1;
        }
        i += 1;
    }
    assert(views.take(i as int) =~= views);
    (f, a)
}

/// The ids of a list of runs, in their order.
pub open spec fn ids(runs: Seq<types::RunView>) -> Seq<u64> {
    runs.map_values(|r: types::RunView| r.id)
}

/// Whether two lists show the same runs, in whatever order.
pub open spec fn same_ids(a: Seq<types::RunView>, b: Seq<types::RunView>) -> bool {
    ids(a).to_multiset() == ids(b).to_multiset()
}

/// How often an id is in a list.
fn occurrences(list: &Vec<u64>, id: u64) -> (r: usize)
    ensures
        r == list@.to_multiset().count(id),
{
    broadcast use vstd::seq_lib::group_to_multiset_ensures;

    let mut n: usize = 0;
    let mut i: usize = 0;
    assert(list@.take(0) =~= Seq::<u64>::empty());
    while i < list.len()
        invariant
            n <= i <= list@.len(),
            n == list@.take(i as int).to_multiset().count(id),
        decreases list@.len() - i,
    {
        proof {
            assert(list@.take(i + 1) =~= list@.take(i as int).push(list@[i as int]));
            list@.take(i as int).to_multiset_ensures();
        }
        if list[i] == id {
            n += 1;
        }
        i += 1;
    }
    assert(list@.take(i as int) =~= list@);
    n
}

/// Whether every id of one list is as often in the other.
fn covered(a: &Vec<u64>, b: &Vec<u64>) -> (r: bool)
    ensures
        r == forall|i: int|
            0 <= i < a@.len() ==> a@.to_multiset().count(#[trigger] a@[i])
                == b@.to_multiset().count(a@[i]),
{
    let mut i: usize = 0;
    while i < a.len()
        invariant
            i <= a@.len(),
            forall|j: int|
                0 <= j < i ==> a@.to_multiset().count(#[trigger] a@[j]) == b@.to_multiset().count(
                    a@[j],
                ),
        decreases a@.len() - i,
    {
        if occurrences(a, a[i]) != occurrences(b, a[i]) {
            assert(a@.to_multiset().count(a@[i as int]) != b@.to_multiset().count(a@[i as int]));
            return false;
        }
        i += 1;
    }
    true
}

/// Whether two lists have the same ids, in whatever order.
fn same_members(a: &Vec<u64>, b: &Vec<u64>) -> (r: bool)
    ensures
        r == (a@.to_multiset() == b@.to_multiset()),
{
    broadcast use vstd::seq_lib::group_to_multiset_ensures;

    let r: bool = covered(a, b) && covered(b, a);
    proof {
        if r {
            assert forall|v: u64| a@.to_multiset().count(v) == b@.to_multiset().count(v) by {
                if a@.contains(v) {
                    let i = choose|i: int| 0 <= i < a@.len() && a@[i] == v;
                    assert(a@.to_multiset().count(a@[i]) == b@.to_multiset().count(a@[i]));
                } else if b@.contains(v) {
                    let i = choose|i: int| 0 <= i < b@.len() && b@[i] == v;
                    assert(b@.to_multiset().count(b@[i]) == a@.to_multiset().count(b@[i]));
                }
            }
            assert(a@.to_multiset() =~= b@.to_multiset());
        }
    }
    r
}

/// Reconcile the visible rows with the runs: update in place while the id set is
/// unchanged, whatever the order, rebuild only when membership changes. Tells
/// whether it was done in place.
pub fn apply_runs(rows: &mut Vec<RunRow>, runs: &Vec<WorkflowRun>) -> (r: bool)
    ensures
        run_row::row_views(final(rows)@) == types::run_views(runs@),
        r == same_ids(run_row::row_views(old(rows)@), types::run_views(runs@)),
{
    broadcast use vstd::seq_lib::group_to_multiset_ensures;

    let ghost before = run_row::row_views(rows@);
    let ghost views = types::run_views(runs@);
    let mut shown: Vec<u64> = Vec::new();
    let mut i: usize = 0;
    while i < rows.len()
        invariant
            i <= rows@.len(),
            *rows == *old(rows),
            before == run_row::row_views(rows@),
            shown@ == ids(before).take(i as int),
        decreases rows@.len() - i,
    {
        assert(before[i as int] == rows@[i as int].run@);
        shown.push(rows[i].id());
        i += 1;
        assert(shown@ =~= ids(before).take(i as int));
    }
    let mut wanted: Vec<u64> = Vec::new();
    let mut k: usize = 0;
    while k < runs.len()
        invariant
            k <= runs@.len(),
            views == types::run_views(runs@),
            wanted@ == ids(views).take(k as int),
        decreases runs@.len() - k,
    {
        assert(views[k as int] == runs@[k as int]@);
        wanted.push(runs[k].id);
        k += 1;
        assert(wanted@ =~= ids(views).take(k as int));
    }
    assert(shown@ =~= ids(before));
    assert(wanted@ =~= ids(views));
    let unchanged: bool = same_members(&shown, &wanted);
    if unchanged {
        assert(shown@.to_multiset().len() == wanted@.to_multiset().len());
        assert(rows@.len() == runs@.len());
    }
    if unchanged {
        let mut k: usize = 0;
        while k < rows.len()
            invariant
                k <= rows@.len() == runs@.len(),
                views == types::run_views(runs@),
                forall|j: int| 0 <= j < k ==> (#[trigger] rows@[j]).run@ == views[j],
            decreases rows@.len() - k,
        {
            rows[k].update(RunRowInput::Update(runs[k].clone()));
            assert(views[k as int] == runs@[k as int]@);
            k += 1;
        }
        assert(run_row::row_views(rows@) =~= views);
    } else {
        rows.clear();
        let mut k: usize = 0;
        while k < runs.len()
            invariant
                k <= runs@.len(),
                rows@.len() == k,
                views == types::run_views(runs@),
                forall|j: int| 0 <= j < k ==> (#[trigger] rows@[j]).run@ == views[j],
            decreases runs@.len() - k,
        {
            rows.push(RunRow::new(runs[k].clone()));
            assert(views[k as int] == runs@[k as int]@);
            k += 1;
        }
        assert(run_row::row_views(rows@) =~= views);
    }
    unchanged
}

/// Whether a run shows up in a search, given the texts it is found by and the
/// search text, all in lower case.
pub open spec fn found_by(
    repo: Seq<char>,
    workflow: Seq<char>,
    branch: Seq<char>,
    query: Seq<char>,
) -> bool {
    text::contains_text(repo, query) || text::contains_text(workflow, query)
        || text::contains_text(branch, query)
}

/// Whether a run shows up in a search by repo, workflow or branch, whatever
/// the case of the letters.
pub open spec fn run_matches(run: types::RunView, query: Seq<char>) -> bool {
    found_by(
        text::lower_case(run.repo),
        text::lower_case(run.workflow_name),
        text::lower_case(run.head_branch),
        text::lower_case(query),
    )
}

/// Whether a run with these texts shows up in a search, all in lower case.
pub fn texts_match(repo: &str, workflow: &str, branch: &str, query: &str) -> (r: bool)
    ensures
        r == found_by(repo@, workflow@, branch@, query@),
{
    text::contains(repo, query) || text::contains(workflow, query) || text::contains(branch, query)
}

/// The runs that a search by repo, workflow or branch finds, in their order.
pub fn search(runs: &Vec<WorkflowRun>, query: &str) -> (r: Vec<WorkflowRun>)
    ensures
        types::run_views(r@) == types::run_views(runs@).filter(
            |run: types::RunView| run_matches(run, query@),
        ),
{
    let wanted: String = text::lowered(query);
    let mut out: Vec<WorkflowRun> = Vec::new();
    let ghost views = types::run_views(runs@);
    let ghost fits = |run: types::RunView| run_matches(run, query@);
    let mut i: usize = 0;
    proof {
        reveal(Seq::filter);
        assert(types::run_views(out@) =~= views.take(0).filter(fits));
    }
    while i < runs.len()
        invariant
            i <= runs@.len(),
            wanted@ == text::lower_case(query@),
            views == types::run_views(runs@),
            fits == (|run: types::RunView| run_matches(run, query@)),
            types::run_views(out@) == views.take(i as int).filter(fits),
        decreases runs@.len() - i,
    {
        proof {
            assert(views.take(i + 1) =~= views.take(i as int).push(runs@[i as int]@));
            views.take(i as int).lemma_filter_push(runs@[i as int]@, fits);
        }
        let repo: String = text::lowered(runs[i].repo.as_str());
        let workflow: String = text::lowered(runs[i].workflow_name.as_str());
        let branch: String = text::lowered(runs[i].head_branch.as_str());
        if texts_match(repo.as_str(), workflow.as_str(), branch.as_str(), wanted.as_str()) {
            let run: WorkflowRun = runs[i].clone();
            let ghost before = out@;
            out.push(run);
            assert(types::run_views(out@) =~= types::run_views(before).push(run@));
        }
        i += 1;
    }
    assert(views.take(i as int) =~= views);
    out
}

/// One repo's history, in the order of the list: its first run is its latest.
pub fn history(runs: &Vec<WorkflowRun>, repo: &str) -> (r: Vec<WorkflowRun>)
    ensures
        types::run_views(r@) == types::run_views(runs@).filter(
            |run: types::RunView| run.repo == repo@,
        ),
{
    let mut out: Vec<WorkflowRun> = Vec::new();
    let ghost views = types::run_views(runs@);
    let ghost own = |run: types::RunView| run.repo == repo@;
    let mut i: usize = 0;
    proof {
        reveal(Seq::filter);
        assert(types::run_views(out@) =~= views.take(0).filter(own));
    }
    while i < runs.len()
        invariant
            i <= runs@.len(),
            views == types::run_views(runs@),
            own == (|run: types::RunView| run.repo == repo@),
            types::run_views(out@) == views.take(i as int).filter(own),
        decreases runs@.len() - i,
    {
        proof {
            assert(views.take(i + 1) =~= views.take(i as int).push(runs@[i as int]@));
            views.take(i as int).lemma_filter_push(runs@[i as int]@, own);
        }
        if text::same_text(runs[i].repo.as_str(), repo) {
            let run: WorkflowRun = runs[i].clone();
            let ghost before = out@;
            out.push(run);
            assert(types::run_views(out@) =~= types::run_views(before).push(run@));
        }
        i += 1;
    }
    assert(views.take(i as int) =~= views);
    out
}

/// The first run under an id is the one that is found, and it is there to be
/// found.
pub proof fn law_first_is_found(runs: Seq<types::RunView>, i: int)
    requires
        0 <= i < runs.len(),
        forall|j: int| 0 <= j < i ==> (#[trigger] runs[j]).id != runs[i].id,
    ensures
        find_run(runs, runs[i].id) == Some(runs[i]),
    decreases i,
{
    if i > 0 {
        let rest = runs.skip(1);
        assert(rest[i - 1] == runs[i]);
        assert forall|j: int| 0 <= j < i - 1 implies (#[trigger] rest[j]).id != rest[i - 1].id by {
            assert(rest[j] == runs[j + 1]);
        }
        law_first_is_found(rest, i - 1);
    }
}

/// Under an id that no run has, none is found.
pub proof fn law_missing_is_not_found(runs: Seq<types::RunView>, id: u64)
    requires
        forall|j: int| 0 <= j < runs.len() ==> (#[trigger] runs[j]).id != id,
    ensures
        find_run(runs, id) is None,
    decreases runs.len(),
{
    if runs.len() > 0 {
        let rest = runs.skip(1);
        assert forall|j: int| 0 <= j < rest.len() implies (#[trigger] rest[j]).id != id by {
            assert(rest[j] == runs[j + 1]);
        }
        law_missing_is_not_found(rest, id);
    }
}

/// Settling takes runs off the list of those being cancelled, and changes none
/// that stays.
pub proof fn law_settling_adds_nothing(
    cancelling: Map<u64, RunStatus>,
    runs: Seq<types::RunView>,
    id: u64,
)
    ensures
        settled(cancelling, runs).dom().contains(id) ==> cancelling.dom().contains(id)
            && settled(cancelling, runs)[id] == cancelling[id],
    decreases runs.len(),
{
    if runs.len() > 0 {
        law_settling_adds_nothing(cancelling, runs.drop_last(), id);
    }
}

/// Putting the newest first keeps every id, as often as it is there.
pub proof fn law_order_keeps_the_ids(runs: Seq<types::RunView>)
    ensures
        ids(newest_first(runs)).to_multiset() == ids(runs).to_multiset(),
    decreases runs.len(),
{
    if runs.len() == 0 {
        assert(ids(newest_first(runs)) =~= ids(runs));
    } else {
        let init = runs.drop_last();
        let run = runs.last();
        law_newest_first(init);
        let rest = newest_first(init);
        lemma_place_splits(rest, run);
        law_order_keeps_the_ids(init);
        let k = place_of(rest, run);
        assert(ids(newest_first(runs)) =~= ids(rest).insert(k, run.id));
        assert(ids(runs) =~= ids(init).push(run.id));
        ids(rest).to_multiset_ensures();
        ids(init).to_multiset_ensures();
        ids(newest_first(runs)).to_multiset_ensures();
        assert(ids(newest_first(runs)).remove(k) =~= ids(rest));
        assert(ids(newest_first(runs)).to_multiset() =~= ids(rest).to_multiset().insert(run.id));
    }
}

/// Of two runs the one that started later comes first: by its second, and
/// within one second by the rest of it.
pub proof fn law_later_run_comes_first(runs: Seq<types::RunView>, i: int, j: int)
    requires
        0 <= i < j < runs.len(),
    ensures
        newest_first(runs)[i].created_at.secs >= newest_first(runs)[j].created_at.secs,
        newest_first(runs)[i].created_at.secs == newest_first(runs)[j].created_at.secs
            ==> newest_first(runs)[i].created_at.nanos >= newest_first(runs)[j].created_at.nanos,
{
    law_newest_first(runs);
    let sorted = newest_first(runs);
    assert(!sorted[j].created_at.after(sorted[i].created_at));
}

/// Runs that started together stay in their order: a run that started when the
/// last of a list did goes behind it.
pub proof fn law_together_stays_in_order(runs: Seq<types::RunView>, run: types::RunView)
    requires
        runs.len() > 0,
        newest_first(runs).last().created_at == run.created_at,
    ensures
        newest_first(runs.push(run)) == newest_first(runs).push(run),
{
    law_newest_first(runs);
    assert(runs.push(run).drop_last() =~= runs);
    let rest = newest_first(runs);
    assert(rest.insert(rest.len() as int, run) =~= rest.push(run));
}

/// A run counts as failing with a failure, a time-out or a failed start, and as
/// running while queued or in progress; each run counts once.
pub proof fn law_counts_grow_by_one(runs: Seq<types::RunView>, run: types::RunView)
    ensures
        failing(Seq::empty()) == 0 && running(Seq::empty()) == 0,
        failing(runs.push(run)) == failing(runs) + if run.conclusion == Some(
            types::Conclusion::Failure,
        ) || run.conclusion == Some(types::Conclusion::TimedOut) || run.conclusion == Some(
            types::Conclusion::StartupFailure,
        ) {
            1nat
        } else {
            0nat
        },
        running(runs.push(run)) == running(runs) + if run.status == RunStatus::Queued || run.status
            == RunStatus::InProgress {
            1nat
        } else {
            0nat
        },
{
    let bad = |r: types::RunView| is_failing(r);
    let busy = |r: types::RunView| r.status.active();
    reveal(Seq::filter);
    let none = Seq::<types::RunView>::empty();
    assert(none.filter(bad) =~= none && none.filter(busy) =~= none);
    runs.lemma_filter_push(run, bad);
    runs.lemma_filter_push(run, busy);
}

/// A search finds a run by any part of its repo, its workflow's name or its
/// branch, and by nothing else.
pub proof fn law_found_by_any_part(
    a: Seq<char>,
    query: Seq<char>,
    b: Seq<char>,
    repo: Seq<char>,
    workflow: Seq<char>,
    branch: Seq<char>,
)
    ensures
        repo == a + query + b ==> found_by(repo, workflow, branch, query),
        workflow == a + query + b ==> found_by(repo, workflow, branch, query),
        branch == a + query + b ==> found_by(repo, workflow, branch, query),
        found_by(repo, workflow, branch, query) ==> text::contains_text(repo, query)
            || text::contains_text(workflow, query) || text::contains_text(branch, query),
{
    text::law_part_is_found(a, query, b);
}

/// A run being cancelled is shown so, with everything else as it is; a refused
/// one gets its status back.
pub proof fn law_cancelling_touches_the_status_alone(
    run: types::RunView,
    cancelling: Map<u64, RunStatus>,
    shown: Seq<types::RunView>,
    i: int,
    id: u64,
    status: RunStatus,
)
    requires
        0 <= i < shown.len(),
    ensures
        cancelling.dom().contains(run.id) ==> overlaid(run, cancelling) == (types::RunView {
            status: RunStatus::Cancelling,
            ..run
        }),
        !cancelling.dom().contains(run.id) ==> overlaid(run, cancelling) == run,
        restored(shown, id, status).len() == shown.len(),
        shown[i].id == id && shown[i].status == RunStatus::Cancelling ==> restored(
            shown,
            id,
            status,
        )[i] == (types::RunView { status, ..shown[i] }),
        shown[i].id != id || shown[i].status != RunStatus::Cancelling ==> restored(
            shown,
            id,
            status,
        )[i] == shown[i],
{
}

/// A search finds a run by any part of its repo, its workflow's name or its
/// branch, whatever the case of the letters, and by nothing else of it.
pub proof fn law_run_is_found_by_its_texts(
    run: types::RunView,
    query: Seq<char>,
    a: Seq<char>,
    b: Seq<char>,
)
    ensures
        text::lower_case(run.repo) == a + text::lower_case(query) + b ==> run_matches(run, query),
        text::lower_case(run.workflow_name) == a + text::lower_case(query) + b ==> run_matches(
            run,
            query,
        ),
        text::lower_case(run.head_branch) == a + text::lower_case(query) + b ==> run_matches(
            run,
            query,
        ),
        run_matches(run, query) ==> text::contains_text(
            text::lower_case(run.repo),
            text::lower_case(query),
        ) || text::contains_text(text::lower_case(run.workflow_name), text::lower_case(query))
            || text::contains_text(text::lower_case(run.head_branch), text::lower_case(query)),
{
    text::law_part_is_found(a, text::lower_case(query), b);
}

/// The ids of a list are its runs' own, in their order.
pub proof fn law_ids_are_the_runs_own(runs: Seq<types::RunView>, i: int)
    ensures
        ids(runs).len() == runs.len(),
        0 <= i < runs.len() ==> ids(runs)[i] == runs[i].id,
{
}

/// A run is settled by completing and by nothing else: one that is not listed,
/// or listed unfinished, is still being cancelled, and one that completed no
/// longer is.
pub proof fn law_only_completion_settles(
    cancelling: Map<u64, RunStatus>,
    runs: Seq<types::RunView>,
    id: u64,
    i: int,
)
    ensures
        cancelling.dom().contains(id) && (forall|j: int|
            0 <= j < runs.len() && (#[trigger] runs[j]).id == id ==> runs[j].status
                != RunStatus::Completed) ==> settled(cancelling, runs).dom().contains(id),
        0 <= i < runs.len() && runs[i].status == RunStatus::Completed ==> !settled(
            cancelling,
            runs,
        ).dom().contains(runs[i].id),
    decreases runs.len(),
{
    if runs.len() > 0 {
        let init = runs.drop_last();
        law_only_completion_settles(cancelling, init, id, i);
        assert(runs.last() == runs[runs.len() - 1]);
        assert(forall|j: int| 0 <= j < init.len() ==> init[j] == runs[j]);
        if cancelling.dom().contains(id) && (forall|j: int|
            0 <= j < runs.len() && (#[trigger] runs[j]).id == id ==> runs[j].status
                != RunStatus::Completed) {
            assert forall|j: int| 0 <= j < init.len() && (#[trigger] init[j]).id == id implies
                init[j].status != RunStatus::Completed by {
                assert(init[j] == runs[j]);
            }
        }
    }
}

} // verus!
