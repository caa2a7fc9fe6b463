//! One workflow run as a row of the list: its texts, and the action its button
//! offers.

use vstd::prelude::*;
use vstd::string::*;

use crate::github::types;
use crate::github::types::{RunAction, RunStatus, WorkflowRun};
use crate::text;
use crate::time;
use crate::time::Timestamp;

verus! {

/// What a row asks for.
#[derive(Debug)]
pub enum RunRowOutput {
    /// Open this run's detail page (the row was activated).
    ShowDetails(u64),
    /// Open this run's page on github.com (the browser button).
    OpenInBrowser(String),
}

/// What a row is told.
#[derive(Debug)]
pub enum RunRowInput {
    /// Fresh data for this run from the poll, applied in place.
    Update(WorkflowRun),
}

/// A row of the run list.
#[derive(Debug)]
pub struct RunRow {
    pub run: WorkflowRun,
}

/// What the rows hold.
pub open spec fn row_views(rows: Seq<RunRow>) -> Seq<types::RunView> {
    rows.map_values(|r: RunRow| r.run@)
}

/// "CI #128"
pub open spec fn run_title(run: types::RunView) -> Seq<char> {
    run.workflow_name + " #"@ + text::signed_decimal(run.run_number as int)
}

/// "CI #128"
pub fn title_of(run: &WorkflowRun) -> (r: String)
    ensures
        r@ == run_title(run@),
{
    let mut out: String = run.workflow_name.clone();
    out.append(" #");
    let number: String = text::signed_number(run.run_number);
    out.append(number.as_str());
    out
}

/// "SoftARV/Pitwall · main · push · 5m ago", as seen at `now`.
pub open spec fn run_subtitle(run: types::RunView, now: Timestamp) -> Seq<char> {
    run.repo + " · "@ + run.head_branch + " · "@ + run.event + " · "@ + age_of(
        time::seconds_between(run.created_at, now),
    )
}

impl RunRow {
    /// A row for a run.
    pub fn new(run: WorkflowRun) -> (r: Self)
        ensures
            r.run == run,
    {
        RunRow { run }
    }

    /// Lets the parent reconcile rows against incoming runs by id.
    pub fn id(&self) -> (r: u64)
        ensures
            r == self.run.id,
    {
        self.run.id
    }

    /// "CI #128"
    pub fn title(&self) -> (r: String)
        ensures
            r@ == run_title(self.run@),
    {
        title_of(&self.run)
    }

    /// "SoftARV/Pitwall · main · push · 5m ago", as seen at `now`.
    pub fn subtitle_at(&self, now: Timestamp) -> (r: String)
        requires
            self.run@.valid(),
            now.valid(),
        ensures
            r@ == run_subtitle(self.run@, now),
    {
        let mut out: String = self.run.repo.clone();
        out.append(" · ");
        out.append(self.run.head_branch.as_str());
        out.append(" · ");
        out.append(self.run.event.as_str());
        out.append(" · ");
        let age: String = relative_at(self.run.created_at, now);
        out.append(age.as_str());
        out
    }

    /// "SoftARV/Pitwall · main · push · 5m ago". The clock decides which
    /// reading of [`run_subtitle`] comes back.
    pub fn subtitle(&self) -> (r: String)
        requires
            self.run@.valid(),
        ensures
            exists|now: Timestamp|
                now.on_the_clock() && r@ == #[trigger] run_subtitle(self.run@, now),
    {
        let now: Timestamp = time::now();
        self.subtitle_at(now)
    }

    /// Swap in fresh data.
    pub fn update(&mut self, msg: RunRowInput)
        ensures
            msg matches RunRowInput::Update(run) && final(self).run == run,
    {
        match msg {
            RunRowInput::Update(run) => {
                self.run = run;
            },
        }
    }

    /// What activating the row asks for.
    pub fn activated(&self) -> (r: RunRowOutput)
        ensures
            r == RunRowOutput::ShowDetails(self.run.id),
    {
        RunRowOutput::ShowDetails(self.run.id)
    }

    /// What the row's browser button asks for.
    pub fn browser_clicked(&self) -> (r: RunRowOutput)
        ensures
            r == RunRowOutput::OpenInBrowser(self.run.html_url),
    {
        RunRowOutput::OpenInBrowser(self.run.html_url.clone())
    }
}

/// The age of something `seconds` old: "just now", "5m ago", "3h ago",
/// "2d ago". A negative age, from clock skew, reads as "just now".
pub open spec fn age_of(seconds: int) -> Seq<char> {
    if seconds < 45 {
        "just now"@
    } else if seconds < 90 {
        "1m ago"@
    } else if seconds < 3600 {
        text::decimal((seconds / 60) as nat) + "m ago"@
    } else if seconds < 7200 {
        "1h ago"@
    } else if seconds < 86_400 {
        text::decimal((seconds / 3600) as nat) + "h ago"@
    } else if seconds < 172_800 {
        "1d ago"@
    } else {
        text::decimal((seconds / 86_400) as nat) + "d ago"@
    }
}

/// A number followed by a unit.
fn count_of(n: i64, unit: &str) -> (r: String)
    requires
        n >= 0,
    ensures
        r@ == text::decimal(n as nat) + unit@,
{
    let mut out: String = text::number(n as u64);
    out.append(unit);
    out
}

/// A compact "5m ago" for an instant, as seen at `now`.
pub fn relative_at(start: Timestamp, now: Timestamp) -> (r: String)
    requires
        start.valid(),
        now.valid(),
    ensures
        r@ == age_of(time::seconds_between(start, now)),
{
    let s: i64 = time::elapsed_seconds(start, now);
    if s < 45 {
        "just now".to_owned()
    } else if s < 90 {
        "1m ago".to_owned()
    } else if s < 3600 {
        count_of(s / 60, "m ago")
    } else if s < 7200 {
        "1h ago".to_owned()
    } else if s < 86_400 {
        count_of(s / 3600, "h ago")
    } else if s < 172_800 {
        "1d ago".to_owned()
    } else {
        count_of(s / 86_400, "d ago")
    }
}

/// A compact "5m ago" for an instant. The clock decides which reading of
/// [`age_of`] comes back.
pub fn relative(start: Timestamp) -> (r: String)
    requires
        start.valid(),
    ensures
        exists|now: Timestamp|
            now.on_the_clock() && r@ == age_of(#[trigger] time::seconds_between(start, now)),
{
    let now: Timestamp = time::now();
    relative_at(start, now)
}

/// The primary action a run offers: its button's text, icon and action, and
/// whether it can be pressed.
#[derive(Debug)]
pub struct ActionSpec {
    pub label: &'static str,
    pub icon: &'static str,
    pub action: &'static str,
    pub enabled: bool,
}

/// What pressing a run's button asks for, where it can be pressed.
pub open spec fn offered(status: RunStatus) -> Option<RunAction> {
    match status {
        RunStatus::Queued | RunStatus::InProgress => Some(RunAction::Cancel),
        RunStatus::Cancelling => None,
        RunStatus::Completed | RunStatus::Unknown => Some(RunAction::Rerun),
    }
}

/// The action for a run's status: a run at work can be cancelled, one that is
/// being cancelled has to finish stopping first, any other can be re-run.
pub fn run_action_spec(status: RunStatus) -> (r: ActionSpec)
    ensures
        r.enabled == (status !is Cancelling),
        (r.action@ == "runs.cancel"@) == (status.active() || status is Cancelling),
        (r.action@ == "runs.rerun"@) == !(status.active() || status is Cancelling),
        r.label@ == if status is Cancelling {
            "Cancelling"@
        } else if status.active() {
            "Cancel"@
        } else {
            "Re-run"@
        },
        r.icon@ == if status.active() || status is Cancelling {
            "process-stop-symbolic"@
        } else {
            "view-refresh-symbolic"@
        },
        r.enabled == offered(status) is Some,
        offered(status) == Some(RunAction::Cancel) ==> r.action@ == "runs.cancel"@,
        offered(status) == Some(RunAction::Rerun) ==> r.action@ == "runs.rerun"@,
        status == RunStatus::Queued || status == RunStatus::InProgress ==> r.enabled && r.action@
            == "runs.cancel"@,
        status == RunStatus::Completed || status == RunStatus::Unknown ==> r.enabled && r.action@
            == "runs.rerun"@,
        status == RunStatus::Cancelling ==> !r.enabled,
{
    proof {
        reveal_strlit("runs.cancel");
        reveal_strlit("runs.rerun");
        assert("runs.cancel"@.len() == 11 && "runs.rerun"@.len() == 10);
    }
    match status {
        RunStatus::Queued | RunStatus::InProgress => ActionSpec {
            label: "Cancel",
            icon: "process-stop-symbolic",
            action: "runs.cancel",
            enabled: true,
        },
        RunStatus::Cancelling => ActionSpec {
            label: "Cancelling",
            icon: "process-stop-symbolic",
            action: "runs.cancel",
            enabled: false,
        },
        RunStatus::Completed | RunStatus::Unknown => ActionSpec {
            label: "Re-run",
            icon: "view-refresh-symbolic",
            action: "runs.rerun",
            enabled: true,
        },
    }
}

/// The button of a run at work cancels it, that of one that is not re-runs it,
/// and that of one being cancelled cannot be pressed.
pub proof fn law_button_by_status(status: RunStatus)
    ensures
        status == RunStatus::Queued || status == RunStatus::InProgress ==> offered(status) == Some(
            RunAction::Cancel,
        ),
        status == RunStatus::Completed || status == RunStatus::Unknown ==> offered(status) == Some(
            RunAction::Rerun,
        ),
        status == RunStatus::Cancelling ==> offered(status) is None,
{
}

/// An age is told in the largest unit that has passed, rounded down: seconds
/// and clock skew as "just now", then minutes, hours and days; one of each from
/// a little early on.
pub proof fn law_age_in_the_largest_unit(n: int, rest: int)
    ensures
        rest < 45 ==> age_of(rest) == "just now"@,
        45 <= rest < 90 ==> age_of(rest) == "1m ago"@,
        1 <= n < 60 && 0 <= rest < 60 && 60 * n + rest >= 90 ==> age_of(60 * n + rest)
            == text::decimal(n as nat) + "m ago"@,
        0 <= rest < 3600 ==> age_of(3600 + rest) == "1h ago"@,
        2 <= n < 24 && 0 <= rest < 3600 ==> age_of(3600 * n + rest) == text::decimal(n as nat)
            + "h ago"@,
        0 <= rest < 86_400 ==> age_of(86_400 + rest) == "1d ago"@,
        n >= 2 && 0 <= rest < 86_400 ==> age_of(86_400 * n + rest) == text::decimal(n as nat)
            + "d ago"@,
{
    if 0 <= rest < 60 {
        assert((60 * n + rest) / 60 == n);
    }
    if 0 <= rest < 3600 {
        assert((3600 * n + rest) / 3600 == n);
    }
    if 0 <= rest < 86_400 {
        assert((86_400 * n + rest) / 86_400 == n);
    }
}

/// A row is titled by its workflow and run number; its subtitle names the repo,
/// the branch, the event and the age, in this order.
pub proof fn law_row_texts(run: types::RunView, now: Timestamp)
    ensures
        run_title(run) == run.workflow_name + " #"@ + text::signed_decimal(run.run_number as int),
        run_subtitle(run, now) == run.repo + " · "@ + run.head_branch + " · "@ + run.event + " · "@
            + age_of(time::seconds_between(run.created_at, now)),
{
}

} // verus!
