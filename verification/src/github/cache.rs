//! What is known of each repo between polls: its runs and the ETag that came
//! with them.

use vstd::prelude::*;
use vstd::string::*;

use crate::github::client;
use crate::github::client::{PollTarget, RepoRuns, RunsOutcome};
use crate::github::types;
use crate::github::types::{RunStatus, WorkflowRun};
use crate::text;

verus! {

/// One repo's entry.
#[derive(Debug)]
struct RepoCache {
    repo: String,
    etag: Option<String>,
    runs: Vec<WorkflowRun>,
}

/// What is known of a repo.
pub ghost struct CachedRuns {
    pub etag: Option<Seq<char>>,
    pub runs: Seq<types::RunView>,
}

/// What is known of the repos polled so far.
#[derive(Debug)]
pub struct RunCache {
    entries: Vec<RepoCache>,
}

/// The repos that the entries are for.
closed spec fn entry_repos(entries: Seq<RepoCache>) -> Seq<Seq<char>> {
    entries.map_values(|e: RepoCache| e.repo@)
}

/// What an entry holds.
closed spec fn entry_view(entry: RepoCache) -> CachedRuns {
    CachedRuns { etag: types::optional_text(entry.etag), runs: types::run_views(entry.runs@) }
}

/// What the entries hold, by repo.
closed spec fn entries_view(entries: Seq<RepoCache>) -> Map<Seq<char>, CachedRuns> {
    Map::new(
        |repo: Seq<char>| entry_repos(entries).contains(repo),
        |repo: Seq<char>| entry_view(entries[entry_repos(entries).index_of(repo)]),
    )
}

impl View for RunCache {
    type V = Map<Seq<char>, CachedRuns>;

    closed spec fn view(&self) -> Map<Seq<char>, CachedRuns> {
        entries_view(self.entries@)
    }
}

/// A run waiting to start again.
pub open spec fn queued_again(run: types::RunView) -> types::RunView {
    types::RunView { status: RunStatus::Queued, conclusion: None, ..run }
}

/// The runs with the one under `id` waiting to start again.
pub open spec fn requeued(runs: Seq<types::RunView>, id: u64) -> Seq<types::RunView> {
    runs.map_values(
        |r: types::RunView|
            if r.id == id {
                queued_again(r)
            } else {
                r
            },
    )
}

/// The runs with the one under `id` waiting to start again.
pub fn requeue_runs(runs: &Vec<WorkflowRun>, id: u64) -> (r: Vec<WorkflowRun>)
    ensures
        types::run_views(r@) == requeued(types::run_views(runs@), id),
{
    let mut out: Vec<WorkflowRun> = Vec::new();
    let ghost views = types::run_views(runs@);
    let mut i: usize = 0;
    assert(types::run_views(out@) =~= requeued(views, id).take(0));
    while i < runs.len()
        invariant
            i <= runs@.len(),
            views == types::run_views(runs@),
            types::run_views(out@) == requeued(views, id).take(i as int),
        decreases runs@.len() - i,
    {
        let mut run: WorkflowRun = runs[i].clone();
        if run.id == id {
            run.status = RunStatus::Queued;
            run.conclusion = None;
        }
        let ghost before = out@;
        out.push(run);
        assert(views[i as int] == runs@[i as int]@);
        assert(requeued(views, id)[i as int] == run@);
        i += 1;
        assert(types::run_views(out@) =~= types::run_views(before).push(run@));
        assert(types::run_views(out@) =~= requeued(views, id).take(i as int));
    }
    assert(requeued(views, id).take(i as int) =~= requeued(views, id));
    out
}

/// A copy of the runs.
pub fn copy_runs(runs: &Vec<WorkflowRun>) -> (r: Vec<WorkflowRun>)
    ensures
        types::run_views(r@) == types::run_views(runs@),
{
    let mut out: Vec<WorkflowRun> = Vec::new();
    let mut i: usize = 0;
    while i < runs.len()
        invariant
            i <= runs@.len(),
            out@ == runs@.take(i as int),
        decreases runs@.len() - i,
    {
        out.push(runs[i].clone());
        i += 1;
    }
    assert(runs@.take(i as int) =~= runs@);
    out
}

/// The cache after one slot of a poll: fresh runs replace what was known, an
/// unchanged or failed repo keeps it.
pub open spec fn after_slot(
    cache: Map<Seq<char>, CachedRuns>,
    slot: client::RepoRunsView,
) -> Map<Seq<char>, CachedRuns> {
    match slot.outcome {
        client::OutcomeView::Fresh { etag, runs } => cache.insert(
            slot.repo,
            CachedRuns { etag, runs },
        ),
        _ => cache,
    }
}

/// The cache after a poll's slots.
pub open spec fn after_slots(
    cache: Map<Seq<char>, CachedRuns>,
    slots: Seq<client::RepoRunsView>,
) -> Map<Seq<char>, CachedRuns>
    decreases slots.len(),
{
    if slots.len() == 0 {
        cache
    } else {
        after_slot(after_slots(cache, slots.drop_last()), slots.last())
    }
}

/// The ETag stored for a repo.
pub open spec fn etag_for(
    cache: Map<Seq<char>, CachedRuns>,
    repo: Seq<char>,
) -> Option<Seq<char>> {
    if cache.dom().contains(repo) {
        cache[repo].etag
    } else {
        None
    }
}

/// The repos to poll, each with its stored ETag.
pub open spec fn targets_for(
    cache: Map<Seq<char>, CachedRuns>,
    watched: Seq<Seq<char>>,
) -> Seq<client::TargetView> {
    watched.map_values(
        |repo: Seq<char>| client::TargetView { repo, etag: etag_for(cache, repo) },
    )
}

/// The runs known of a repo.
pub open spec fn runs_of(
    cache: Map<Seq<char>, CachedRuns>,
    repo: Seq<char>,
) -> Seq<types::RunView> {
    if cache.dom().contains(repo) {
        cache[repo].runs
    } else {
        Seq::empty()
    }
}

/// The runs known of the watched repos, repo by repo.
pub open spec fn known_runs(
    cache: Map<Seq<char>, CachedRuns>,
    watched: Seq<Seq<char>>,
) -> Seq<types::RunView>
    decreases watched.len(),
{
    if watched.len() == 0 {
        Seq::empty()
    } else {
        known_runs(cache, watched.drop_last()) + runs_of(cache, watched.last())
    }
}

/// The cache with a repo's ETag forgotten, so that the next poll asks for it
/// unconditionally.
pub open spec fn etag_forgotten(
    cache: Map<Seq<char>, CachedRuns>,
    repo: Seq<char>,
) -> Map<Seq<char>, CachedRuns> {
    if cache.dom().contains(repo) {
        cache.insert(repo, CachedRuns { etag: None, ..cache[repo] })
    } else {
        cache
    }
}

/// The cache with a repo's run waiting to start again. The ETag stays: an
/// unchanged list will answer 304 and leave the run queued, and a changed one
/// carries the run's new state.
pub open spec fn run_requeued(
    cache: Map<Seq<char>, CachedRuns>,
    repo: Seq<char>,
    id: u64,
) -> Map<Seq<char>, CachedRuns> {
    if cache.dom().contains(repo) {
        cache.insert(
            repo,
            CachedRuns { runs: requeued(cache[repo].runs, id), ..cache[repo] },
        )
    } else {
        cache
    }
}

impl RunCache {
    /// No repo has two entries.
    pub closed spec fn well_formed(&self) -> bool {
        entry_repos(self.entries@).no_duplicates()
    }

    /// Nothing known.
    pub fn new() -> (r: Self)
        ensures
            r.well_formed(),
            r@ == Map::<Seq<char>, CachedRuns>::empty(),
    {
        let cache = RunCache { entries: Vec::new() };
        assert(cache@ =~= Map::<Seq<char>, CachedRuns>::empty());
        cache
    }

    /// Where a repo's entry stands.
    fn find(&self, repo: &str) -> (r: Option<usize>)
        requires
            self.well_formed(),
        ensures
            match r {
                Some(i) => i < self.entries@.len() && self.entries@[i as int].repo@ == repo@
                    && self@.dom().contains(repo@) && self@[repo@] == entry_view(
                    self.entries@[i as int],
                ),
                None => !self@.dom().contains(repo@),
            },
    {
        let ghost repos = entry_repos(self.entries@);
        let mut i: usize = 0;
        while i < self.entries.len()
            invariant
                i <= self.entries@.len(),
                self.well_formed(),
                repos == entry_repos(self.entries@),
                forall|j: int| 0 <= j < i ==> repos[j] != repo@,
            decreases self.entries@.len() - i,
        {
            assert(repos[i as int] == self.entries@[i as int].repo@);
            if text::same_text(self.entries[i].repo.as_str(), repo) {
                proof {
                    assert(repos.contains(repo@));
                    assert(repos.index_of(repo@) == i);
                }
                return Some(i);
            }
            i += 1;
        }
        None
    }

    /// Put what is known of a repo, in place of what was.
    pub fn put(&mut self, repo: String, etag: Option<String>, runs: Vec<WorkflowRun>)
        requires
            old(self).well_formed(),
        ensures
            final(self).well_formed(),
            final(self)@ == old(self)@.insert(
                repo@,
                CachedRuns { etag: types::optional_text(etag), runs: types::run_views(runs@) },
            ),
    {
        let ghost before = self.entries@;
        let ghost repos = entry_repos(before);
        let place: Option<usize> = self.find(repo.as_str());
        let entry = RepoCache { repo, etag, runs };
        match place {
            Some(i) => {
                self.entries.set(i, entry);
                proof {
                    let after = entry_repos(self.entries@);
                    assert(after =~= repos) by {
                        assert(repos[i as int] == repo@);
                    }
                    assert forall|k: Seq<char>| after.contains(k) implies #[trigger] entry_view(
                        self.entries@[after.index_of(k)],
                    ) == (if k == repo@ {
                        entry_view(entry)
                    } else {
                        entry_view(before[repos.index_of(k)])
                    }) by {
                        let p = after.index_of(k);
                        assert(after[p] == k);
                        assert(repos[i as int] == repo@);
                    }
                    assert(repos.contains(repo@));
                    assert(self@ =~= entries_view(before).insert(repo@, entry_view(entry)));
                }
            },
            None => {
                self.entries.push(entry);
                proof {
                    let after = entry_repos(self.entries@);
                    assert(after =~= repos.push(repo@));
                    assert(!repos.contains(repo@));
                    assert forall|i: int, j: int|
                        0 <= i < after.len() && 0 <= j < after.len() && i != j implies after[i]
                        != after[j] by {
                        if i == repos.len() {
                            assert(repos.contains(repos[j]));
                        } else if j == repos.len() {
                            assert(repos.contains(repos[i]));
                        }
                    }
                    assert forall|k: Seq<char>| #[trigger]
                        self@.dom().contains(k) == entries_view(before).insert(
                            repo@,
                            entry_view(entry),
                        ).dom().contains(k) by {
                        if repos.contains(k) {
                            let p = repos.index_of(k);
                            assert(after[p] == k);
                        }
                        assert(after[repos.len() as int] == repo@);
                        if after.contains(k) {
                            let p = after.index_of(k);
                            if p < repos.len() {
                                assert(repos[p] == k);
                            }
                        }
                    }
                    assert forall|k: Seq<char>| after.contains(k) implies #[trigger] entry_view(
                        self.entries@[after.index_of(k)],
                    ) == (if k == repo@ {
                        entry_view(entry)
                    } else {
                        entry_view(before[repos.index_of(k)])
                    }) by {
                        let p = after.index_of(k);
                        assert(after[p] == k);
                        if k == repo@ {
                            assert(after[repos.len() as int] == k);
                        } else {
                            assert(repos[p] == k);
                            assert(repos.contains(k));
                            assert(repos.index_of(k) == p);
                        }
                    }
                    assert(self@ =~= entries_view(before).insert(repo@, entry_view(entry)));
                }
            },
        }
    }

    /// The ETag stored for a repo.
    pub fn etag(&self, repo: &str) -> (r: Option<String>)
        requires
            self.well_formed(),
        ensures
            types::optional_text(r) == etag_for(self@, repo@),
    {
        match self.find(repo) {
            Some(i) => match &self.entries[i].etag {
                Some(etag) => Some(etag.clone()),
                None => None,
            },
            None => None,
        }
    }

    /// The runs known of a repo.
    pub fn runs(&self, repo: &str) -> (r: Vec<WorkflowRun>)
        requires
            self.well_formed(),
        ensures
            types::run_views(r@) == runs_of(self@, repo@),
    {
        match self.find(repo) {
            Some(i) => copy_runs(&self.entries[i].runs),
            None => {
                let none: Vec<WorkflowRun> = Vec::new();
                assert(types::run_views(none@) =~= Seq::empty());
                none
            },
        }
    }

    /// The repos to poll, each with its stored ETag.
    pub fn targets(&self, watched: &Vec<String>) -> (r: Vec<PollTarget>)
        requires
            self.well_formed(),
        ensures
            client::target_views(r@) == targets_for(self@, text::texts(watched@)),
    {
        let mut out: Vec<PollTarget> = Vec::new();
        let ghost wanted = targets_for(self@, text::texts(watched@));
        let mut i: usize = 0;
        assert(client::target_views(out@) =~= wanted.take(0));
        while i < watched.len()
            invariant
                i <= watched@.len(),
                self.well_formed(),
                wanted == targets_for(self@, text::texts(watched@)),
                client::target_views(out@) == wanted.take(i as int),
            decreases watched@.len() - i,
        {
            let target = PollTarget {
                repo: watched[i].clone(),
                etag: self.etag(watched[i].as_str()),
            };
            let ghost before = out@;
            out.push(target);
            assert(text::texts(watched@)[i as int] == watched@[i as int]@);
            assert(wanted[i as int] == target@);
            i += 1;
            assert(client::target_views(out@) =~= client::target_views(before).push(target@));
            assert(client::target_views(out@) =~= wanted.take(i as int));
        }
        assert(wanted.take(i as int) =~= wanted);
        out
    }

    /// The runs known of the watched repos, repo by repo.
    pub fn known(&self, watched: &Vec<String>) -> (r: Vec<WorkflowRun>)
        requires
            self.well_formed(),
        ensures
            types::run_views(r@) == known_runs(self@, text::texts(watched@)),
    {
        let mut out: Vec<WorkflowRun> = Vec::new();
        let ghost names = text::texts(watched@);
        let mut i: usize = 0;
        assert(types::run_views(out@) =~= known_runs(self@, names.take(0)));
        while i < watched.len()
            invariant
                i <= watched@.len(),
                self.well_formed(),
                names == text::texts(watched@),
                types::run_views(out@) == known_runs(self@, names.take(i as int)),
            decreases watched@.len() - i,
        {
            let mut runs: Vec<WorkflowRun> = self.runs(watched[i].as_str());
            let ghost before = out@;
            let ghost added = runs@;
            out.append(&mut runs);
            assert(names.take(i + 1).drop_last() =~= names.take(i as int));
            assert(names.take(i + 1).last() == watched@[i as int]@);
            i += 1;
            assert(types::run_views(out@) =~= types::run_views(before) + types::run_views(added));
        }
        assert(names.take(i as int) =~= names);
        out
    }

    /// Forget a repo's ETag.
    pub fn forget_etag(&mut self, repo: &str)
        requires
            old(self).well_formed(),
        ensures
            final(self).well_formed(),
            final(self)@ == etag_forgotten(old(self)@, repo@),
    {
        if self.find(repo).is_some() {
            let runs: Vec<WorkflowRun> = self.runs(repo);
            self.put(repo.to_owned(), None, runs);
        }
    }

    /// Flip a repo's run to waiting.
    pub fn requeue(&mut self, repo: &str, id: u64)
        requires
            old(self).well_formed(),
        ensures
            final(self).well_formed(),
            final(self)@ == run_requeued(old(self)@, repo@, id),
    {
        if self.find(repo).is_some() {
            let runs: Vec<WorkflowRun> = self.runs(repo);
            let etag: Option<String> = self.etag(repo);
            let flipped: Vec<WorkflowRun> = requeue_runs(&runs, id);
            self.put(repo.to_owned(), etag, flipped);
        }
    }

    /// Take the slots of a poll.
    pub fn absorb(&mut self, slots: Vec<RepoRuns>)
        requires
            old(self).well_formed(),
        ensures
            final(self).well_formed(),
            final(self)@ == after_slots(old(self)@, client::slot_views(slots@)),
    {
        let ghost start = self@;
        let ghost views = client::slot_views(slots@);
        assert(views.take(0) =~= Seq::empty());
        for slot in it: slots
            invariant
                it.seq() == slots@,
                views == client::slot_views(slots@),
                self.well_formed(),
                self@ == after_slots(start, views.take(it.index() as int)),
        {
            let ghost i = it.index() as int;
            assert(views[i] == slot@);
            assert(views.take(i + 1).drop_last() =~= views.take(i));
            match slot.outcome {
                RunsOutcome::Fresh { etag, runs } => {
                    self.put(slot.repo, etag, runs);
                },
                _ => {},
            }
        }
        assert(views.take(views.len() as int) =~= views);
    }
}

/// A repo that answers "not modified", or fails, keeps what was known of it.
pub proof fn law_unchanged_repo_keeps_its_runs(
    cache: Map<Seq<char>, CachedRuns>,
    slots: Seq<client::RepoRunsView>,
    repo: Seq<char>,
)
    requires
        forall|i: int|
            0 <= i < slots.len() && (#[trigger] slots[i]).repo == repo
                ==> slots[i].outcome !is Fresh,
    ensures
        runs_of(after_slots(cache, slots), repo) == runs_of(cache, repo),
        etag_for(after_slots(cache, slots), repo) == etag_for(cache, repo),
    decreases slots.len(),
{
    if slots.len() > 0 {
        let init = slots.drop_last();
        assert forall|i: int| 0 <= i < init.len() && (#[trigger] init[i]).repo == repo implies
            init[i].outcome !is Fresh by {
            assert(init[i] == slots[i]);
        }
        law_unchanged_repo_keeps_its_runs(cache, init, repo);
        assert(slots.last() == slots[slots.len() - 1]);
    }
}

/// Fresh runs replace what was known of their repo, and the next poll sends
/// back the ETag that came with them.
pub proof fn law_fresh_repo_is_replaced(
    cache: Map<Seq<char>, CachedRuns>,
    slots: Seq<client::RepoRunsView>,
    i: int,
)
    requires
        0 <= i < slots.len(),
        slots[i].outcome is Fresh,
        forall|j: int| i < j < slots.len() ==> (#[trigger] slots[j]).repo != slots[i].repo,
    ensures
        runs_of(after_slots(cache, slots), slots[i].repo) == slots[i].outcome->runs,
        etag_for(after_slots(cache, slots), slots[i].repo) == slots[i].outcome->etag,
    decreases slots.len(),
{
    let init = slots.drop_last();
    if i < slots.len() - 1 {
        assert(init[i] == slots[i]);
        assert forall|j: int| i < j < init.len() implies (#[trigger] init[j]).repo
            != init[i].repo by {
            assert(init[j] == slots[j]);
        }
        law_fresh_repo_is_replaced(cache, init, i);
        assert(slots.last() == slots[slots.len() - 1]);
    }
}

/// Fresh runs replace what was known of their repo, with the ETag that came
/// with them; an unchanged or failed repo keeps what was known, and so does
/// every other.
pub proof fn law_slots_are_taken_in(
    cache: Map<Seq<char>, CachedRuns>,
    slots: Seq<client::RepoRunsView>,
    slot: client::RepoRunsView,
    other: Seq<char>,
)
    ensures
        ({
            let before = after_slots(cache, slots);
            let after = after_slots(cache, slots.push(slot));
            &&& slot.outcome matches client::OutcomeView::Fresh { etag, runs } ==> runs_of(
                after,
                slot.repo,
            ) == runs && etag_for(after, slot.repo) == etag
            &&& slot.outcome !is Fresh ==> after == before
            &&& other != slot.repo ==> runs_of(after, other) == runs_of(before, other) && etag_for(
                after,
                other,
            ) == etag_for(before, other)
        }),
        after_slots(cache, Seq::empty()) == cache,
{
    assert(slots.push(slot).drop_last() =~= slots);
}

/// Every watched repo is asked for, in its order, with the ETag stored for it
/// and for no other.
pub proof fn law_every_watched_repo_is_asked_for(
    cache: Map<Seq<char>, CachedRuns>,
    watched: Seq<Seq<char>>,
    i: int,
)
    requires
        0 <= i < watched.len(),
    ensures
        targets_for(cache, watched).len() == watched.len(),
        targets_for(cache, watched)[i].repo == watched[i],
        cache.dom().contains(watched[i]) ==> targets_for(cache, watched)[i].etag
            == cache[watched[i]].etag,
        !cache.dom().contains(watched[i]) ==> targets_for(cache, watched)[i].etag is None,
{
}

/// What is known of the watched repos is known repo by repo, and nothing of a
/// repo that is not watched.
pub proof fn law_known_repo_by_repo(
    cache: Map<Seq<char>, CachedRuns>,
    watched: Seq<Seq<char>>,
    repo: Seq<char>,
)
    ensures
        known_runs(cache, Seq::empty()).len() == 0,
        cache.dom().contains(repo) ==> known_runs(cache, watched.push(repo)) == known_runs(
            cache,
            watched,
        ) + cache[repo].runs,
        !cache.dom().contains(repo) ==> known_runs(cache, watched.push(repo)) == known_runs(
            cache,
            watched,
        ),
{
    assert(watched.push(repo).drop_last() =~= watched);
    assert(known_runs(cache, watched) + Seq::<types::RunView>::empty() =~= known_runs(
        cache,
        watched,
    ));
}

/// A re-run is queued without a conclusion and keeps everything else; no other
/// run and no other repo changes, and its repo's ETag stays.
pub proof fn law_requeue_touches_one_run(
    cache: Map<Seq<char>, CachedRuns>,
    repo: Seq<char>,
    id: u64,
    i: int,
    other: Seq<char>,
)
    requires
        cache.dom().contains(repo),
        0 <= i < cache[repo].runs.len(),
    ensures
        ({
            let after = run_requeued(cache, repo, id);
            let run = cache[repo].runs[i];
            &&& runs_of(after, repo).len() == cache[repo].runs.len()
            &&& run.id == id ==> runs_of(after, repo)[i] == (types::RunView {
                status: RunStatus::Queued,
                conclusion: None,
                ..run
            })
            &&& run.id != id ==> runs_of(after, repo)[i] == run
            &&& etag_for(after, repo) == cache[repo].etag
            &&& other != repo ==> runs_of(after, other) == runs_of(cache, other) && etag_for(
                after,
                other,
            ) == etag_for(cache, other)
        }),
{
}

/// A forgotten ETag is forgotten for its repo alone, and no run with it.
pub proof fn law_forgetting_touches_one_etag(
    cache: Map<Seq<char>, CachedRuns>,
    repo: Seq<char>,
    other: Seq<char>,
)
    ensures
        etag_for(etag_forgotten(cache, repo), repo) is None,
        runs_of(etag_forgotten(cache, repo), other) == runs_of(cache, other),
        other != repo ==> etag_for(etag_forgotten(cache, repo), other) == etag_for(cache, other),
{
}

} // verus!
