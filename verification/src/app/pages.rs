//! What the window reads off the model: which page is up, and what the header
//! and the menus say.

use vstd::prelude::*;
use vstd::string::*;

use crate::app;
use crate::app::step;
use crate::app::{AppModel, CommandMsg, Onboarding, ViewState, RECENT_CAP};
use crate::components::run_row;
use crate::components::run_row::RunRow;
use crate::github::client::Connection;
use crate::github::types;
use crate::github::types::WorkflowRun;
use crate::list;
use crate::runs;
use crate::settings::Settings;
use crate::text;
use crate::time::Timestamp;

verus! {

/// "3 runs", "1 run".
pub open spec fn run_count(total: nat) -> Seq<char> {
    text::decimal(total) + " run"@ + if total == 1 {
        ""@
    } else {
        "s"@
    }
}

/// The parts of a summary of the runs: how many there are, and how many of
/// them fail or run, where some do.
pub open spec fn summary_parts(shown: Seq<types::RunView>) -> Seq<Seq<char>> {
    let total = seq![run_count(shown.len())];
    let failing = if runs::failing(shown) > 0 {
        seq![text::decimal(runs::failing(shown)) + " failing"@]
    } else {
        Seq::empty()
    };
    let running = if runs::running(shown) > 0 {
        seq![text::decimal(runs::running(shown)) + " running"@]
    } else {
        Seq::empty()
    };
    total + failing + running
}

/// The header subtitle: a live run summary once runs have loaded, else who
/// we're signed in as, else nothing.
pub open spec fn subtitle_of(s: app::AppView) -> Seq<char> {
    if s.screen is Ready && s.runs_loaded && s.all_runs.len() > 0 {
        list::joined(summary_parts(s.all_runs), " · "@)
    } else {
        match s.connection {
            Some(connection) => "Signed in as "@ + connection.login@,
            None => Seq::empty(),
        }
    }
}

/// A number and what it counts.
fn counted(n: usize, what: &str) -> (r: String)
    ensures
        r@ == text::decimal(n as nat) + what@,
{
    let mut out: String = text::number(n as u64);
    out.append(what);
    out
}

/// A summary of the runs.
fn summary(shown: &Vec<types::WorkflowRun>) -> (r: String)
    ensures
        r@ == list::joined(summary_parts(types::run_views(shown@)), " · "@),
{
    let ghost views = types::run_views(shown@);
    let total: usize = shown.len();
    let (failing, running) = runs::count(shown);
    let mut first: String = counted(total, " run");
    first.append(
        if total == 1 {
            ""
        } else {
            "s"
        },
    );
    let mut parts: Vec<String> = Vec::new();
    parts.push(first);
    assert(text::texts(parts@) =~= seq![run_count(views.len())]);
    if failing > 0 {
        let ghost before = parts@;
        let part: String = counted(failing, " failing");
        parts.push(part);
        assert(text::texts(parts@) =~= text::texts(before).push(part@));
    }
    if running > 0 {
        let ghost before = parts@;
        let part: String = counted(running, " running");
        parts.push(part);
        assert(text::texts(parts@) =~= text::texts(before).push(part@));
    }
    assert(text::texts(parts@) =~= summary_parts(views));
    list::join(&parts, " · ")
}

/// What the main view shows: a search takes over from the tabs.
pub fn list_page(query: &str) -> (r: &'static str)
    ensures
        r@ == if query@.len() == 0 {
            "tabs"@
        } else {
            "results"@
        },
{
    if text::same_text(query, "") {
        proof {
            reveal_strlit("");
        }
        "tabs"
    } else {
        proof {
            reveal_strlit("");
            assert(query@.len() == 0 ==> query@ =~= ""@);
        }
        "results"
    }
}

/// How many of so many runs the Recent tab shows.
pub open spec fn recent_count(total: nat) -> int {
    if total < RECENT_CAP {
        total as int
    } else {
        RECENT_CAP as int
    }
}

/// What the banner says while the budget is spent and polling pauses.
pub open spec fn backoff_text(minutes: int) -> Seq<char> {
    "GitHub's rate limit is used up — polling resumes in "@ + text::signed_decimal(minutes)
        + " min."@
}

impl AppModel {
    /// Which main-window page to show for the current state.
    pub fn state_page(&self) -> (r: &'static str)
        ensures
            r@ == match self@.screen {
                app::Screen::Loading => "loading"@,
                app::Screen::SignedOut => "welcome"@,
                app::Screen::Ready => "app"@,
                app::Screen::Disconnected(_) => "disconnected"@,
            },
    {
        match self.state {
            ViewState::Loading => "loading",
            ViewState::SignedOut => "welcome",
            ViewState::Ready => "app",
            ViewState::Disconnected(_) => "disconnected",
        }
    }

    /// The header subtitle: a live run summary once runs have loaded, else who
    /// we're signed in as. Empty when disconnected, so the subtitle line hides.
    pub fn header_subtitle(&self) -> (r: String)
        ensures
            r@ == subtitle_of(self@),
    {
        assert(types::run_views(self.all_runs@).len() == self.all_runs@.len());
        let ready: bool = match self.state {
            ViewState::Ready => true,
            _ => false,
        };
        if ready && self.runs_loaded && self.all_runs.len() > 0 {
            summary(&self.all_runs)
        } else {
            match &self.connection {
                Some(connection) => {
                    let mut out: String = "Signed in as ".to_owned();
                    out.append(connection.login.as_str());
                    out
                },
                None => String::new(),
            }
        }
    }

    /// Which `app` sub-page to show: no repos, first-load spinner, no runs, or
    /// the list.
    pub fn app_page(&self) -> (r: &'static str)
        ensures
            r@ == if self@.watched.len() == 0 {
                "no-repos"@
            } else if !self@.runs_loaded {
                "loading"@
            } else if self@.all_runs.len() == 0 {
                "no-runs"@
            } else {
                "runs"@
            },
    {
        assert(text::texts(self.watched@).len() == self.watched@.len());
        assert(types::run_views(self.all_runs@).len() == self.all_runs@.len());
        if self.watched.len() == 0 {
            "no-repos"
        } else if !self.runs_loaded {
            "loading"
        } else if self.all_runs.len() == 0 {
            "no-runs"
        } else {
            "runs"
        }
    }

    /// The disconnected page's description: the reason we couldn't connect.
    pub fn disconnected_reason(&self) -> (r: String)
        ensures
            r@ == match self@.screen {
                app::Screen::Disconnected(reason) => reason,
                _ => Seq::empty(),
            },
    {
        match &self.state {
            ViewState::Disconnected(reason) => reason.clone(),
            _ => String::new(),
        }
    }

    /// The onboarding modal, while it is shown.
    pub fn onboarding(&self) -> (r: Option<&Onboarding>)
        ensures
            match r {
                Some(modal) => self@.onboarding == Some(
                    app::Modal { page: modal.page, code: modal.code@ },
                ),
                None => self@.onboarding is None,
            },
    {
        match &self.onboarding {
            Some(modal) => Some(modal),
            None => None,
        }
    }

    /// The run rows.
    pub fn rows(&self) -> (r: &Vec<RunRow>)
        ensures
            run_row::row_views(r@) == self@.rows,
    {
        &self.runs
    }

    /// The runs on show.
    pub fn all_runs(&self) -> (r: &Vec<WorkflowRun>)
        ensures
            types::run_views(r@) == self@.all_runs,
    {
        &self.all_runs
    }

    /// What the Recent tab shows: the newest runs across the watch list, up to
    /// the cap.
    pub fn recent(&self) -> (r: Vec<WorkflowRun>)
        ensures
            types::run_views(r@) == self@.all_runs.take(recent_count(self@.all_runs.len())),
    {
        let ghost views = types::run_views(self.all_runs@);
        let total: usize = self.all_runs.len();
        let count: usize = if total < RECENT_CAP {
            total
        } else {
            RECENT_CAP
        };
        let mut out: Vec<WorkflowRun> = Vec::new();
        let mut i: usize = 0;
        assert(types::run_views(out@) =~= views.take(0));
        while i < count
            invariant
                i <= count <= self.all_runs@.len(),
                views == types::run_views(self.all_runs@),
                types::run_views(out@) == views.take(i as int),
            decreases count - i,
        {
            let run: WorkflowRun = self.all_runs[i].clone();
            let ghost before = out@;
            out.push(run);
            assert(views[i as int] == self.all_runs@[i as int]@);
            i += 1;
            assert(types::run_views(out@) =~= types::run_views(before).push(run@));
            assert(types::run_views(out@) =~= views.take(i as int));
        }
        out
    }

    /// The banner while the budget is spent at `now` and polling pauses; none
    /// otherwise.
    pub fn backoff_banner_at(&self, now: Timestamp) -> (r: Option<String>)
        requires
            now.valid(),
            self@.connection matches Some(connection) ==> connection.rate.valid(),
        ensures
            match r {
                Some(banner) => step::paused(self@, now) && banner@ == backoff_text(
                    self@.connection.unwrap().rate.minutes_left(now),
                ),
                None => !step::paused(self@, now),
            },
    {
        match &self.connection {
            Some(connection) => if connection.rate.is_exhausted_at(now) {
                let mut banner: String =
                    "GitHub's rate limit is used up — polling resumes in ".to_owned();
                let minutes: String = text::signed_number(
                    connection.rate.resets_in_minutes_at(now),
                );
                banner.append(minutes.as_str());
                banner.append(" min.");
                Some(banner)
            } else {
                None
            },
            None => None,
        }
    }

    /// The number on the Recent tab's badge: the runs on show that went wrong.
    pub fn failing_badge(&self) -> (r: usize)
        ensures
            r == runs::failing(self@.all_runs),
    {
        runs::count(&self.all_runs).0
    }

    /// The search results: the runs across the watch list that match by repo,
    /// workflow or branch, in the list's order.
    pub fn search(&self, query: &str) -> (r: Vec<WorkflowRun>)
        ensures
            types::run_views(r@) == self@.all_runs.filter(
                |run: types::RunView| runs::run_matches(run, query@),
            ),
    {
        runs::search(&self.all_runs, query)
    }

    /// The watched repos, in the order of the watch list.
    pub fn watched(&self) -> (r: &Vec<String>)
        ensures
            text::texts(r@) == self@.watched,
    {
        &self.watched
    }

    /// Whether a result of outside work is a connection that the model will
    /// take: not one of a sign-in that was cancelled or superseded.
    pub fn takes_connection(&self, msg: &CommandMsg) -> (r: bool)
        ensures
            r == step::connects(self@, *msg),
    {
        match msg {
            CommandMsg::Connected(result) => result.is_ok(),
            CommandMsg::DeviceResult { generation, result } => *generation == self.auth_gen
                && result.is_ok(),
            _ => false,
        }
    }

    /// Whether the header spins for a refresh the user asked for.
    pub fn is_refreshing(&self) -> (r: bool)
        ensures
            r == self@.refreshing,
    {
        self.refreshing
    }

    /// Whether the signed-in-only menu items are offered: hidden otherwise.
    pub fn is_signed_in(&self) -> (r: bool)
        ensures
            r == self@.signed_in,
    {
        self.signed_in
    }

    /// Whether the poll timer runs.
    pub fn is_polling(&self) -> (r: bool)
        ensures
            r == self@.polling,
    {
        self.polling
    }

    /// Whether the repo picker is open.
    pub fn is_picker_open(&self) -> (r: bool)
        ensures
            r == self@.picker_open,
    {
        self.picker_open
    }

    /// Who we are connected as, and with what budget.
    pub fn connection(&self) -> (r: Option<&Connection>)
        ensures
            match r {
                Some(connection) => self@.connection == Some(*connection),
                None => self@.connection is None,
            },
    {
        match &self.connection {
            Some(connection) => Some(connection),
            None => None,
        }
    }

    /// How many sign-ins and cancels there have been.
    pub fn auth_generation(&self) -> (r: u64)
        ensures
            r == self@.auth_gen,
    {
        self.auth_gen
    }

    /// The settings.
    pub fn settings(&self) -> (r: &Settings)
        ensures
            r@ == self@.settings,
    {
        &self.settings
    }
}

/// The Recent tab is capped, and shows the newest: after a poll, no run outside
/// it is newer than one in it.
pub proof fn law_recent_are_the_newest(all: Seq<types::RunView>, i: int, j: int)
    requires
        runs::is_newest_first(all),
        0 <= i < recent_count(all.len()) <= j < all.len(),
    ensures
        recent_count(all.len()) <= RECENT_CAP,
        !all[j].created_at.after(all.take(recent_count(all.len()))[i].created_at),
{
}

/// The header counts the runs, and tells those that fail and those that run
/// where there are some, in this order; without runs it names who is signed in.
pub proof fn law_header_tells_the_counts(s: app::AppView)
    ensures
        ({
            let total = text::decimal(s.all_runs.len()) + if s.all_runs.len() == 1 {
                " run"@
            } else {
                " runs"@
            };
            let failing = text::decimal(runs::failing(s.all_runs)) + " failing"@;
            let running = text::decimal(runs::running(s.all_runs)) + " running"@;
            let counts = s.screen is Ready && s.runs_loaded && s.all_runs.len() > 0;
            let bad = runs::failing(s.all_runs) > 0;
            let busy = runs::running(s.all_runs) > 0;
            &&& counts && !bad && !busy ==> subtitle_of(s) == total
            &&& counts && bad && !busy ==> subtitle_of(s) == total + " · "@ + failing
            &&& counts && !bad && busy ==> subtitle_of(s) == total + " · "@ + running
            &&& counts && bad && busy ==> subtitle_of(s) == total + " · "@ + failing + " · "@
                + running
            &&& !counts ==> (s.connection matches Some(connection) ==> subtitle_of(s)
                == "Signed in as "@ + connection.login@)
            &&& !counts && s.connection is None ==> subtitle_of(s).len() == 0
        }),
{
    reveal_strlit("");
    reveal_strlit("s");
    reveal_strlit(" run");
    reveal_strlit(" runs");
    let total = run_count(s.all_runs.len());
    let failing = text::decimal(runs::failing(s.all_runs)) + " failing"@;
    let running = text::decimal(runs::running(s.all_runs)) + " running"@;
    assert(text::decimal(s.all_runs.len()) + " run"@ + ""@ =~= text::decimal(s.all_runs.len())
        + " run"@);
    assert(text::decimal(s.all_runs.len()) + " run"@ + "s"@ =~= text::decimal(s.all_runs.len())
        + " runs"@);
    list::law_separator_stands_between(seq![total], failing, " · "@);
    list::law_separator_stands_between(seq![total], running, " · "@);
    list::law_separator_stands_between(seq![total, failing], running, " · "@);
    list::law_separator_stands_between(seq![total], total, " · "@);
    let parts = summary_parts(s.all_runs);
    if runs::failing(s.all_runs) > 0 && runs::running(s.all_runs) > 0 {
        assert(parts =~= seq![total, failing].push(running));
        assert(seq![total, failing] =~= seq![total].push(failing));
    } else if runs::failing(s.all_runs) > 0 {
        assert(parts =~= seq![total].push(failing));
    } else if runs::running(s.all_runs) > 0 {
        assert(parts =~= seq![total].push(running));
    } else {
        assert(parts =~= seq![total]);
    }
}

/// The Recent tab shows every run up to fifty, and fifty of more.
pub proof fn law_recent_is_capped(total: nat)
    ensures
        total <= 50 ==> recent_count(total) == total,
        total > 50 ==> recent_count(total) == 50,
{
}

/// The banner tells the minutes until polling resumes.
pub proof fn law_banner_tells_the_minutes(minutes: nat)
    ensures
        backoff_text(minutes as int) == "GitHub's rate limit is used up — polling resumes in "@
            + text::decimal(minutes) + " min."@,
{
}

} // verus!
