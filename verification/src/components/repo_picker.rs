//! The repo picker: choose which repositories to watch. It lists the repos the
//! token can see as toggle rows with a live search, and gives out the chosen
//! set.

use vstd::prelude::*;
use vstd::string::*;

use crate::github::types::Repo;
use crate::list;
use crate::text;

verus! {

/// What the picker is made for.
#[derive(Debug)]
pub struct RepoPickerInit {
    /// The current watch set, to pre-tick.
    pub watched: Vec<String>,
}

/// What the picker is told.
#[derive(Debug)]
pub enum RepoPickerInput {
    /// A repo's switch flipped: (full_name, now-on).
    Toggle(String, bool),
    /// Save the current selection and close.
    Save,
}

/// What the picker gives out.
#[derive(Debug)]
pub enum RepoPickerOutput {
    /// The user saved a watch set (sorted full names).
    Saved(Vec<String>),
}

/// What comes back from the picker's request.
#[derive(Debug)]
pub enum RepoPickerCmd {
    /// The repo list came back (or an error message).
    Loaded(Box<Result<Vec<Repo>, String>>),
}

/// Whether the repos are there yet.
#[derive(Debug)]
pub enum PickerState {
    Loading,
    Loaded,
    Error(String),
}

/// What the picker's state holds.
pub ghost enum PickerStateView {
    Loading,
    Loaded,
    Error(Seq<char>),
}

impl View for PickerState {
    type V = PickerStateView;

    open spec fn view(&self) -> PickerStateView {
        match *self {
            PickerState::Loading => PickerStateView::Loading,
            PickerState::Loaded => PickerStateView::Loaded,
            PickerState::Error(message) => PickerStateView::Error(message@),
        }
    }
}

/// A repo's switch row.
#[derive(Debug)]
pub struct PickerRow {
    pub title: String,
    pub subtitle: &'static str,
    pub active: bool,
    /// Whether the repo is watched but no longer listed.
    pub orphan: bool,
}

/// What a switch row holds.
pub ghost struct PickerRowView {
    pub title: Seq<char>,
    pub subtitle: Seq<char>,
    pub active: bool,
    pub orphan: bool,
}

impl View for PickerRow {
    type V = PickerRowView;

    open spec fn view(&self) -> PickerRowView {
        PickerRowView {
            title: self.title@,
            subtitle: self.subtitle@,
            active: self.active,
            orphan: self.orphan,
        }
    }
}

/// What the rows hold.
pub open spec fn picker_row_views(rows: Seq<PickerRow>) -> Seq<PickerRowView> {
    rows.map_values(|r: PickerRow| r@)
}

/// The full names of the listed repos.
pub open spec fn listed_names(repos: Seq<Repo>) -> Seq<Seq<char>> {
    repos.map_values(|r: Repo| r.spec_full_name())
}

/// The row of a watched repo that GitHub did not list back.
pub open spec fn orphan_row(name: Seq<char>) -> PickerRowView {
    PickerRowView {
        title: name,
        subtitle: "Not found — renamed, deleted, or no longer accessible"@,
        active: true,
        orphan: true,
    }
}

/// The row of a listed repo.
pub open spec fn repo_row(repo: Repo, selected: Set<Seq<char>>) -> PickerRowView {
    PickerRowView {
        title: repo.spec_full_name(),
        subtitle: if repo.private {
            "Private"@
        } else {
            "Public"@
        },
        active: selected.contains(repo.spec_full_name()),
        orphan: false,
    }
}

/// The rows for a selection and a listing of repos: first what is selected but
/// not listed, in order, since it is the thing most likely to need attention;
/// then the listed repos as they came.
pub open spec fn rows_for(
    rows: Seq<PickerRowView>,
    orphans: Seq<Seq<char>>,
    repos: Seq<Repo>,
    selected: Set<Seq<char>>,
) -> bool {
    &&& list::lists(
        orphans,
        selected.filter(|name: Seq<char>| !listed_names(repos).contains(name)),
    )
    &&& rows == orphans.map_values(|name: Seq<char>| orphan_row(name)) + repos.map_values(
        |r: Repo| repo_row(r, selected),
    )
}

/// The repo picker.
#[derive(Debug)]
pub struct RepoPicker {
    /// The full names currently ticked, each once. Seeded from the current
    /// watch set, mutated as switches toggle, given out on Save.
    selected: Vec<String>,
    state: PickerState,
    rows: Vec<PickerRow>,
}

/// What the picker holds.
pub ghost struct RepoPickerView {
    pub selected: Set<Seq<char>>,
    pub state: PickerStateView,
    pub rows: Seq<PickerRowView>,
}

impl View for RepoPicker {
    type V = RepoPickerView;

    closed spec fn view(&self) -> RepoPickerView {
        RepoPickerView {
            selected: text::texts(self.selected@).to_set(),
            state: self.state@,
            rows: picker_row_views(self.rows@),
        }
    }
}

/// Whether a row shows up in a search, given its title and the search text in
/// lower case: everything does while nothing is searched for.
pub fn row_matches(title: &str, query: &str) -> (r: bool)
    ensures
        r == (query@.len() == 0 || text::contains_text(title@, query@)),
{
    query.is_empty() || text::contains(title, query)
}

/// Whether the row of a repo shows up in a search, whatever the case of the
/// letters.
pub fn search_shows(title: &str, query: &str) -> (r: bool)
    ensures
        r == (text::lower_case(query@).len() == 0 || text::contains_text(
            text::lower_case(title@),
            text::lower_case(query@),
        )),
{
    let query: String = text::lowered(query);
    let title: String = text::lowered(title);
    row_matches(title.as_str(), query.as_str())
}

impl RepoPicker {
    /// No name is ticked twice.
    pub closed spec fn well_formed(&self) -> bool {
        text::texts(self.selected@).no_duplicates()
    }

    /// The picker for a watch set, the repos still to come.
    pub fn init(init: RepoPickerInit) -> (r: Self)
        ensures
            r.well_formed(),
            r@ == (RepoPickerView {
                selected: text::texts(init.watched@).to_set(),
                state: PickerStateView::Loading,
                rows: Seq::empty(),
            }),
    {
        let mut selected: Vec<String> = Vec::new();
        let ghost names = text::texts(init.watched@);
        assert(text::texts(selected@).to_set() =~= names.take(0).to_set());
        for name in it: init.watched
            invariant
                it.seq() == init.watched@,
                names == text::texts(init.watched@),
                text::texts(selected@).no_duplicates(),
                text::texts(selected@).to_set() == names.take(it.index() as int).to_set(),
        {
            let ghost i = it.index() as int;
            list::add_name(&mut selected, name);
            proof {
                lemma_set_grows(names, i);
            }
        }
        assert(names.take(names.len() as int) =~= names);
        let picker = RepoPicker { selected, state: PickerState::Loading, rows: Vec::new() };
        assert(picker_row_views(picker.rows@) =~= Seq::empty());
        picker
    }

    /// Which page of the picker to show.
    pub fn page(&self) -> (r: &'static str)
        ensures
            r@ == match self@.state {
                PickerStateView::Loading => "loading"@,
                PickerStateView::Loaded => "list"@,
                PickerStateView::Error(_) => "error"@,
            },
    {
        match self.state {
            PickerState::Loading => "loading",
            PickerState::Loaded => "list",
            PickerState::Error(_) => "error",
        }
    }

    /// Why the repos could not be loaded; empty otherwise.
    pub fn error(&self) -> (r: String)
        ensures
            r@ == match self@.state {
                PickerStateView::Error(message) => message,
                _ => Seq::empty(),
            },
    {
        match &self.state {
            PickerState::Error(message) => message.clone(),
            _ => String::new(),
        }
    }

    /// The rows being shown.
    pub fn rows(&self) -> (r: &Vec<PickerRow>)
        ensures
            picker_row_views(r@) == self@.rows,
    {
        &self.rows
    }

    /// (Re)build the switch rows from a fetched repo list. A watched repo that
    /// GitHub didn't list back gets a row too: without one there would be no
    /// way to untick it, and it would be saved again every time.
    pub fn populate(&mut self, repos: &Vec<Repo>)
        requires
            old(self).well_formed(),
        ensures
            final(self).well_formed(),
            final(self)@.selected == old(self)@.selected,
            final(self)@.state == old(self)@.state,
            exists|orphans: Seq<Seq<char>>| #[trigger]
                rows_for(final(self)@.rows, orphans, repos@, old(self)@.selected),
    {
        let listed: Vec<String> = full_names(repos);
        let orphans: Vec<String> = orphans_of(&self.selected, &listed);
        let mut rows: Vec<PickerRow> = Vec::new();
        let ghost selected = self@.selected;
        let ghost orphan_names = text::texts(orphans@);
        let ghost orphan_of = |name: Seq<char>| orphan_row(name);
        let ghost row_of = |r: Repo| repo_row(r, selected);
        let mut i: usize = 0;
        assert(picker_row_views(rows@) =~= orphan_names.take(0).map_values(orphan_of));
        while i < orphans.len()
            invariant
                i <= orphans@.len(),
                orphan_names == text::texts(orphans@),
                orphan_of == (|name: Seq<char>| orphan_row(name)),
                picker_row_views(rows@) == orphan_names.take(i as int).map_values(orphan_of),
            decreases orphans@.len() - i,
        {
            let row = PickerRow {
                title: orphans[i].clone(),
                subtitle: "Not found — renamed, deleted, or no longer accessible",
                active: true,
                orphan: true,
            };
            let ghost before = rows@;
            rows.push(row);
            assert(orphan_names[i as int] == orphans@[i as int]@);
            i += 1;
            assert(picker_row_views(rows@) =~= picker_row_views(before).push(row@));
            assert(picker_row_views(rows@) =~= orphan_names.take(i as int).map_values(orphan_of));
        }
        assert(orphan_names.take(i as int) =~= orphan_names);
        let ghost first = orphan_names.map_values(orphan_of);
        let mut k: usize = 0;
        assert(picker_row_views(rows@) =~= first + repos@.take(0).map_values(row_of));
        while k < repos.len()
            invariant
                k <= repos@.len(),
                selected == self@.selected,
                *self == *old(self),
                row_of == (|r: Repo| repo_row(r, selected)),
                picker_row_views(rows@) == first + repos@.take(k as int).map_values(row_of),
            decreases repos@.len() - k,
        {
            let repo: &Repo = &repos[k];
            let title: String = repo.full_name();
            let active: bool = list::has(&self.selected, title.as_str());
            let row = PickerRow {
                title,
                subtitle: if repo.private {
                    "Private"
                } else {
                    "Public"
                },
                active,
                orphan: false,
            };
            let ghost before = rows@;
            rows.push(row);
            assert(row@ == row_of(repos@[k as int]));
            k += 1;
            assert(picker_row_views(rows@) =~= picker_row_views(before).push(row@));
            assert(picker_row_views(rows@) =~= first + repos@.take(k as int).map_values(row_of));
        }
        assert(repos@.take(k as int) =~= repos@);
        self.rows = rows;
        proof {
            assert(text::texts(listed@) == listed_names(repos@));
            assert(orphan_names.to_set() =~= selected.filter(
                |name: Seq<char>| !listed_names(repos@).contains(name),
            ));
            assert(rows_for(self@.rows, orphan_names, repos@, selected));
        }
    }

    /// Take a flipped switch, or save: give out the chosen names in order.
    pub fn update(&mut self, msg: RepoPickerInput) -> (r: Option<RepoPickerOutput>)
        requires
            old(self).well_formed(),
        ensures
            final(self).well_formed(),
            match msg {
                RepoPickerInput::Toggle(full_name, on) => {
                    &&& r is None
                    &&& final(self)@ == (RepoPickerView {
                        selected: if on {
                            old(self)@.selected.insert(full_name@)
                        } else {
                            old(self)@.selected.remove(full_name@)
                        },
                        ..old(self)@
                    })
                },
                RepoPickerInput::Save => {
                    &&& r matches Some(RepoPickerOutput::Saved(names)) && list::lists(
                        text::texts(names@),
                        old(self)@.selected,
                    )
                    &&& final(self)@ == old(self)@
                },
            },
    {
        match msg {
            RepoPickerInput::Toggle(full_name, on) => {
                if on {
                    list::add_name(&mut self.selected, full_name);
                } else {
                    list::remove_name(&mut self.selected, full_name.as_str());
                }
                None
            },
            RepoPickerInput::Save => {
                let names: Vec<String> = list::listing(&self.selected);
                Some(RepoPickerOutput::Saved(names))
            },
        }
    }

    /// Take the repo list that came back.
    pub fn update_cmd(&mut self, msg: RepoPickerCmd)
        requires
            old(self).well_formed(),
        ensures
            final(self).well_formed(),
            final(self)@.selected == old(self)@.selected,
            match msg {
                RepoPickerCmd::Loaded(result) => match *result {
                    Ok(repos) => {
                        &&& final(self)@.state is Loaded
                        &&& exists|orphans: Seq<Seq<char>>| #[trigger]
                            rows_for(final(self)@.rows, orphans, repos@, old(self)@.selected)
                    },
                    Err(message) => {
                        &&& final(self)@.state == PickerStateView::Error(message@)
                        &&& final(self)@.rows == old(self)@.rows
                    },
                },
            },
    {
        match msg {
            RepoPickerCmd::Loaded(result) => match *result {
                Ok(repos) => {
                    self.populate(&repos);
                    let ghost orphans = choose|orphans: Seq<Seq<char>>| #[trigger]
                        rows_for(self@.rows, orphans, repos@, old(self)@.selected);
                    self.state = PickerState::Loaded;
                    assert(rows_for(self@.rows, orphans, repos@, old(self)@.selected));
                },
                Err(message) => {
                    self.state = PickerState::Error(message);
                },
            },
        }
    }
}

/// One more name of a list belongs to the set of its names.
proof fn lemma_set_grows(names: Seq<Seq<char>>, i: int)
    requires
        0 <= i < names.len(),
    ensures
        names.take(i + 1).to_set() == names.take(i).to_set().insert(names[i]),
{
    let before = names.take(i);
    let after = names.take(i + 1);
    assert forall|t: Seq<char>|
        after.to_set().contains(t) == before.to_set().insert(names[i]).contains(t) by {
        if before.contains(t) {
            let k = choose|k: int| 0 <= k < before.len() && before[k] == t;
            assert(after[k] == t);
        }
        assert(after[i] == names[i]);
        if after.contains(t) {
            let k = choose|k: int| 0 <= k < after.len() && after[k] == t;
            if k < i {
                assert(before[k] == t);
            }
        }
    }
    assert(after.to_set() =~= before.to_set().insert(names[i]));
}

/// The full names of the listed repos.
fn full_names(repos: &Vec<Repo>) -> (r: Vec<String>)
    ensures
        text::texts(r@) == listed_names(repos@),
{
    let mut names: Vec<String> = Vec::new();
    let mut i: usize = 0;
    assert(text::texts(names@) =~= listed_names(repos@).take(0));
    while i < repos.len()
        invariant
            i <= repos@.len(),
            text::texts(names@) == listed_names(repos@).take(i as int),
        decreases repos@.len() - i,
    {
        let name: String = repos[i].full_name();
        let ghost before = names@;
        names.push(name);
        assert(listed_names(repos@)[i as int] == name@);
        i += 1;
        assert(text::texts(names@) =~= text::texts(before).push(name@));
        assert(text::texts(names@) =~= listed_names(repos@).take(i as int));
    }
    assert(listed_names(repos@).take(i as int) =~= listed_names(repos@));
    names
}

/// The selected names that are not listed, in order.
fn orphans_of(selected: &Vec<String>, listed: &Vec<String>) -> (r: Vec<String>)
    requires
        text::texts(selected@).no_duplicates(),
    ensures
        list::lists(
            text::texts(r@),
            text::texts(selected@).to_set().filter(
                |name: Seq<char>| !text::texts(listed@).contains(name),
            ),
        ),
{
    let mut orphans: Vec<String> = Vec::new();
    let ghost names = text::texts(selected@);
    let ghost missing = |name: Seq<char>| !text::texts(listed@).contains(name);
    let mut i: usize = 0;
    assert(text::texts(orphans@).to_set() =~= names.take(0).to_set().filter(missing));
    while i < selected.len()
        invariant
            i <= selected@.len(),
            names == text::texts(selected@),
            missing == (|name: Seq<char>| !text::texts(listed@).contains(name)),
            text::texts(orphans@).no_duplicates(),
            text::texts(orphans@).to_set() == names.take(i as int).to_set().filter(missing),
        decreases selected@.len() - i,
    {
        proof {
            lemma_set_grows(names, i as int);
            assert(names[i as int] == selected@[i as int]@);
        }
        if !list::has(listed, selected[i].as_str()) {
            list::add_name(&mut orphans, selected[i].clone());
        }
        i += 1;
        assert(text::texts(orphans@).to_set() =~= names.take(i as int).to_set().filter(missing));
    }
    assert(names.take(i as int) =~= names);
    list::listing(&orphans)
}

/// Every ticked repo has a row, so it can always be unticked.
pub proof fn law_every_selected_has_a_row(
    rows: Seq<PickerRowView>,
    orphans: Seq<Seq<char>>,
    repos: Seq<Repo>,
    selected: Set<Seq<char>>,
    name: Seq<char>,
) -> (i: int)
    requires
        rows_for(rows, orphans, repos, selected),
        selected.contains(name),
    ensures
        0 <= i < rows.len(),
        rows[i].title == name,
        rows[i].active,
{
    if listed_names(repos).contains(name) {
        let k = choose|k: int|
            0 <= k < listed_names(repos).len() && listed_names(repos)[k] == name;
        assert(rows[orphans.len() + k] == repo_row(repos[k], selected));
        orphans.len() + k
    } else {
        assert(orphans.to_set().contains(name));
        let k = choose|k: int| 0 <= k < orphans.len() && orphans[k] == name;
        assert(rows[k] == orphan_row(orphans[k]));
        k
    }
}

/// A row is on exactly for what is ticked.
pub proof fn law_rows_show_the_selection(
    rows: Seq<PickerRowView>,
    orphans: Seq<Seq<char>>,
    repos: Seq<Repo>,
    selected: Set<Seq<char>>,
    i: int,
)
    requires
        rows_for(rows, orphans, repos, selected),
        0 <= i < rows.len(),
    ensures
        rows[i].active == selected.contains(rows[i].title),
        rows[i].orphan == !listed_names(repos).contains(rows[i].title),
{
    if i < orphans.len() {
        assert(rows[i] == orphan_row(orphans[i]));
        assert(orphans.to_set().contains(orphans[i]));
    } else {
        let k = i - orphans.len();
        assert(rows[i] == repo_row(repos[k], selected));
        assert(listed_names(repos)[k] == rows[i].title);
    }
}

/// A listed repo's row names it by owner and name and tells whether it is
/// private; the rows of the listed stand in their order, behind those of the
/// missing, which say so.
pub proof fn law_rows_name_their_repos(
    rows: Seq<PickerRowView>,
    orphans: Seq<Seq<char>>,
    repos: Seq<Repo>,
    selected: Set<Seq<char>>,
    i: int,
    k: int,
)
    requires
        rows_for(rows, orphans, repos, selected),
    ensures
        rows.len() == orphans.len() + repos.len(),
        0 <= k < repos.len() ==> {
            let row = rows[orphans.len() + k];
            &&& row.title == repos[k].owner@ + seq!['/'] + repos[k].name@
            &&& row.subtitle == if repos[k].private {
                "Private"@
            } else {
                "Public"@
            }
            &&& !row.orphan
        },
        0 <= i < orphans.len() ==> {
            &&& rows[i].title == orphans[i]
            &&& rows[i].subtitle == "Not found — renamed, deleted, or no longer accessible"@
            &&& rows[i].active && rows[i].orphan
            &&& selected.contains(orphans[i])
        },
{
    if 0 <= k < repos.len() {
        assert(rows[orphans.len() + k] == repo_row(repos[k], selected));
        assert(repos[k].spec_full_name() =~= repos[k].owner@ + seq!['/'] + repos[k].name@);
    }
    if 0 <= i < orphans.len() {
        assert(rows[i] == orphan_row(orphans[i]));
        assert(orphans.to_set().contains(orphans[i]));
    }
}

/// The rows of the missing repos are in the order of their names, each once.
pub proof fn law_missing_repos_are_sorted(
    rows: Seq<PickerRowView>,
    orphans: Seq<Seq<char>>,
    repos: Seq<Repo>,
    selected: Set<Seq<char>>,
    i: int,
    j: int,
)
    requires
        rows_for(rows, orphans, repos, selected),
        0 <= i < j < orphans.len(),
    ensures
        list::at_most(rows[i].title, rows[j].title),
        rows[i].title != rows[j].title,
{
    assert(rows[i] == orphan_row(orphans[i]) && rows[j] == orphan_row(orphans[j]));
}

} // verus!
