//! The Repositories view: one group per watched repo, its latest run first. It
//! is rebuilt only when its data changed, and a rebuild keeps what was
//! expanded, so a background poll never collapses what you were reading.

use vstd::prelude::*;
use vstd::string::*;

use crate::github::types;
use crate::github::types::WorkflowRun;
use crate::runs;
use crate::text;

verus! {

/// One repo's group: its history, and whether it is expanded.
#[derive(Debug)]
pub struct RepoGroup {
    pub repo: String,
    pub expanded: bool,
    pub runs: Vec<WorkflowRun>,
}

/// What a group holds.
pub ghost struct RepoGroupView {
    pub repo: Seq<char>,
    pub expanded: bool,
    pub runs: Seq<types::RunView>,
}

impl View for RepoGroup {
    type V = RepoGroupView;

    open spec fn view(&self) -> RepoGroupView {
        RepoGroupView {
            repo: self.repo@,
            expanded: self.expanded,
            runs: types::run_views(self.runs@),
        }
    }
}

/// What a list of groups holds.
pub open spec fn group_views(groups: Seq<RepoGroup>) -> Seq<RepoGroupView> {
    groups.map_values(|g: RepoGroup| g@)
}

/// Whether a repo's group is expanded.
pub open spec fn is_expanded(groups: Seq<RepoGroupView>, repo: Seq<char>) -> bool {
    exists|i: int|
        0 <= i < groups.len() && (#[trigger] groups[i]).repo == repo && groups[i].expanded
}

/// A repo's group: its runs among all of them, expanded as it was.
pub open spec fn group_of(
    groups: Seq<RepoGroupView>,
    all: Seq<types::RunView>,
    repo: Seq<char>,
) -> RepoGroupView {
    RepoGroupView {
        repo,
        expanded: is_expanded(groups, repo),
        runs: all.filter(|run: types::RunView| run.repo == repo),
    }
}

/// The groups of the watched repos, in the order of the watch list.
pub open spec fn grouped(
    groups: Seq<RepoGroupView>,
    watched: Seq<Seq<char>>,
    all: Seq<types::RunView>,
) -> Seq<RepoGroupView> {
    watched.map_values(|repo: Seq<char>| group_of(groups, all, repo))
}

/// Whether two lists of groups show the same repos with the same runs.
pub open spec fn same_data(a: Seq<RepoGroupView>, b: Seq<RepoGroupView>) -> bool {
    a.len() == b.len() && forall|i: int|
        0 <= i < a.len() ==> (#[trigger] a[i]).repo == b[i].repo && a[i].runs == b[i].runs
}

/// The Repositories view.
#[derive(Debug)]
pub struct RepoList {
    groups: Vec<RepoGroup>,
}

impl View for RepoList {
    type V = Seq<RepoGroupView>;

    closed spec fn view(&self) -> Seq<RepoGroupView> {
        group_views(self.groups@)
    }
}

/// Whether a repo's group is expanded.
fn was_expanded(groups: &Vec<RepoGroup>, repo: &str) -> (r: bool)
    ensures
        r == is_expanded(group_views(groups@), repo@),
{
    let ghost views = group_views(groups@);
    let mut i: usize = 0;
    while i < groups.len()
        invariant
            i <= groups@.len(),
            views == group_views(groups@),
            forall|j: int|
                0 <= j < i ==> !((#[trigger] views[j]).repo == repo@ && views[j].expanded),
        decreases groups@.len() - i,
    {
        assert(views[i as int] == groups@[i as int]@);
        if groups[i].expanded && text::same_text(groups[i].repo.as_str(), repo) {
            return true;
        }
        i += 1;
    }
    false
}

/// Whether two groups show the same repo with the same runs.
fn same_group(a: &RepoGroup, b: &RepoGroup) -> (r: bool)
    ensures
        r == (a@.repo == b@.repo && a@.runs == b@.runs),
{
    text::same_text(a.repo.as_str(), b.repo.as_str()) && types::same_runs(&a.runs, &b.runs)
}

/// Whether two lists of groups show the same repos with the same runs.
fn same_groups(a: &Vec<RepoGroup>, b: &Vec<RepoGroup>) -> (r: bool)
    ensures
        r == same_data(group_views(a@), group_views(b@)),
{
    let ghost left = group_views(a@);
    let ghost right = group_views(b@);
    if a.len() != b.len() {
        return false;
    }
    let mut i: usize = 0;
    while i < a.len()
        invariant
            i <= a@.len() == b@.len(),
            left == group_views(a@),
            right == group_views(b@),
            forall|j: int|
                0 <= j < i ==> (#[trigger] left[j]).repo == right[j].repo && left[j].runs
                    == right[j].runs,
        decreases a@.len() - i,
    {
        assert(left[i as int] == a@[i as int]@);
        assert(right[i as int] == b@[i as int]@);
        if !same_group(&a[i], &b[i]) {
            return false;
        }
        i += 1;
    }
    true
}

impl RepoList {
    /// Nothing watched.
    pub fn new() -> (r: Self)
        ensures
            r@ == Seq::<RepoGroupView>::empty(),
    {
        let list = RepoList { groups: Vec::new() };
        assert(list@ =~= Seq::<RepoGroupView>::empty());
        list
    }

    /// The groups.
    pub fn groups(&self) -> (r: &Vec<RepoGroup>)
        ensures
            group_views(r@) == self@,
    {
        &self.groups
    }

    /// Group the runs by the watched repos, keeping what was expanded. Tells
    /// whether there is anything to redraw.
    pub fn populate(&mut self, watched: &Vec<String>, all: &Vec<WorkflowRun>) -> (r: bool)
        ensures
            final(self)@ == grouped(old(self)@, text::texts(watched@), types::run_views(all@)),
            r == !same_data(old(self)@, final(self)@),
    {
        let ghost names = text::texts(watched@);
        let ghost views = types::run_views(all@);
        let ghost wanted = grouped(self@, names, views);
        let mut groups: Vec<RepoGroup> = Vec::new();
        let mut i: usize = 0;
        assert(group_views(groups@) =~= wanted.take(0));
        while i < watched.len()
            invariant
                i <= watched@.len(),
                *self == *old(self),
                names == text::texts(watched@),
                views == types::run_views(all@),
                wanted == grouped(self@, names, views),
                group_views(groups@) == wanted.take(i as int),
            decreases watched@.len() - i,
        {
            let group = RepoGroup {
                repo: watched[i].clone(),
                expanded: was_expanded(&self.groups, watched[i].as_str()),
                runs: runs::history(all, watched[i].as_str()),
            };
            let ghost before = groups@;
            groups.push(group);
            assert(names[i as int] == watched@[i as int]@);
            assert(wanted[i as int] == group@);
            i += 1;
            assert(group_views(groups@) =~= group_views(before).push(group@));
            assert(group_views(groups@) =~= wanted.take(i as int));
        }
        assert(wanted.take(i as int) =~= wanted);
        let same: bool = same_groups(&self.groups, &groups);
        self.groups = groups;
        !same
    }

    /// A group was expanded or collapsed.
    pub fn set_expanded(&mut self, row: usize, expanded: bool)
        ensures
            final(self)@ == if row < old(self)@.len() {
                old(self)@.update(
                    row as int,
                    RepoGroupView { expanded, ..old(self)@[row as int] },
                )
            } else {
                old(self)@
            },
    {
        if row < self.groups.len() {
            let ghost before = self@;
            self.groups[row].expanded = expanded;
            assert(self@ =~= before.update(
                row as int,
                RepoGroupView { expanded, ..before[row as int] },
            ));
        }
    }
}

/// A poll never collapses what you were reading: a repo that stays watched has
/// its group expanded as it was.
pub proof fn law_regrouping_keeps_expanded(
    groups: Seq<RepoGroupView>,
    watched: Seq<Seq<char>>,
    all: Seq<types::RunView>,
    i: int,
)
    requires
        0 <= i < watched.len(),
    ensures
        grouped(groups, watched, all)[i].repo == watched[i],
        grouped(groups, watched, all)[i].expanded == is_expanded(groups, watched[i]),
{
}

/// The same watch list and runs again leave nothing to redraw.
pub proof fn law_unchanged_repos_are_not_redrawn(
    groups: Seq<RepoGroupView>,
    watched: Seq<Seq<char>>,
    all: Seq<types::RunView>,
)
    ensures
        ({
            let shown = grouped(groups, watched, all);
            same_data(shown, grouped(shown, watched, all))
        }),
{
}

/// Every run of a watched repo is in its group, and nothing else is.
pub proof fn law_groups_hold_their_runs(
    groups: Seq<RepoGroupView>,
    watched: Seq<Seq<char>>,
    all: Seq<types::RunView>,
    i: int,
    run: types::RunView,
)
    requires
        0 <= i < watched.len(),
    ensures
        grouped(groups, watched, all)[i].runs.contains(run) == (all.contains(run) && run.repo
            == watched[i]),
{
    let own = |r: types::RunView| r.repo == watched[i];
    lemma_filter_members(all, own, run);
}

/// Filtering keeps the members that pass, and no others.
proof fn lemma_filter_members(
    all: Seq<types::RunView>,
    pass: spec_fn(types::RunView) -> bool,
    run: types::RunView,
)
    ensures
        all.filter(pass).contains(run) == (all.contains(run) && pass(run)),
    decreases all.len(),
{
    reveal(Seq::filter);
    if all.len() > 0 {
        let init = all.drop_last();
        let kept = init.filter(pass);
        lemma_filter_members(init, pass, run);
        assert(all =~= init.push(all.last()));
        lemma_pushed(init, all.last(), run);
        lemma_pushed(kept, all.last(), run);
    }
}

/// A list with one more member has that one, and the others as before.
proof fn lemma_pushed(list: Seq<types::RunView>, last: types::RunView, run: types::RunView)
    ensures
        list.push(last).contains(run) == (list.contains(run) || run == last),
{
    let more = list.push(last);
    if list.contains(run) {
        let i = choose|i: int| 0 <= i < list.len() && list[i] == run;
        assert(more[i] == run);
    }
    assert(more[list.len() as int] == last);
}

/// A group that was expanded stays so, and one that was not does not become so.
pub proof fn law_expanded_group_stays_expanded(
    groups: Seq<RepoGroupView>,
    watched: Seq<Seq<char>>,
    all: Seq<types::RunView>,
    i: int,
    k: int,
)
    requires
        0 <= i < watched.len(),
    ensures
        grouped(groups, watched, all).len() == watched.len(),
        0 <= k < groups.len() && groups[k].repo == watched[i] && groups[k].expanded ==> grouped(
            groups,
            watched,
            all,
        )[i].expanded,
        (forall|j: int|
            0 <= j < groups.len() && (#[trigger] groups[j]).repo == watched[i]
                ==> !groups[j].expanded) ==> !grouped(groups, watched, all)[i].expanded,
{
}

/// Any difference in the repos or their runs is redrawn, and a group that was
/// merely expanded or collapsed is not.
pub proof fn law_any_difference_is_redrawn(
    a: Seq<RepoGroupView>,
    b: Seq<RepoGroupView>,
    i: int,
    expanded: bool,
)
    ensures
        a.len() != b.len() ==> !same_data(a, b),
        0 <= i < a.len() && a.len() == b.len() && a[i].repo != b[i].repo ==> !same_data(a, b),
        0 <= i < a.len() && a.len() == b.len() && a[i].runs != b[i].runs ==> !same_data(a, b),
        0 <= i < a.len() ==> same_data(a, a.update(i, RepoGroupView { expanded, ..a[i] })),
{
}

/// A group has its latest run first where the list has the newest first.
pub proof fn law_group_has_its_latest_first(
    groups: Seq<RepoGroupView>,
    watched: Seq<Seq<char>>,
    all: Seq<types::RunView>,
    i: int,
)
    requires
        0 <= i < watched.len(),
        runs::is_newest_first(all),
    ensures
        runs::is_newest_first(grouped(groups, watched, all)[i].runs),
{
    lemma_filter_keeps_order(all, |r: types::RunView| r.repo == watched[i]);
}

/// Filtering keeps the newest first.
proof fn lemma_filter_keeps_order(
    all: Seq<types::RunView>,
    pass: spec_fn(types::RunView) -> bool,
)
    requires
        runs::is_newest_first(all),
    ensures
        runs::is_newest_first(all.filter(pass)),
    decreases all.len(),
{
    reveal(Seq::filter);
    if all.len() > 0 {
        let init = all.drop_last();
        let kept = init.filter(pass);
        let last = all.len() - 1;
        assert forall|i: int, j: int| 0 <= i < j < init.len() implies !(
        #[trigger] init[j]).created_at.after((#[trigger] init[i]).created_at) by {
            assert(init[i] == all[i] && init[j] == all[j]);
        }
        lemma_filter_keeps_order(init, pass);
        if pass(all.last()) {
            let more = kept.push(all.last());
            assert forall|i: int, j: int| 0 <= i < j < more.len() implies !(
            #[trigger] more[j]).created_at.after((#[trigger] more[i]).created_at) by {
                if j < kept.len() {
                    assert(more[i] == kept[i] && more[j] == kept[j]);
                } else {
                    assert(kept.contains(kept[i]));
                    lemma_filter_members(init, pass, kept[i]);
                    let k = choose|k: int| 0 <= k < init.len() && init[k] == kept[i];
                    assert(all[k] == more[i] && all[last] == more[j]);
                }
            }
        }
    }
}

} // verus!
