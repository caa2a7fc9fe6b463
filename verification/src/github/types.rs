//! The types the rest of the crate works on: what GitHub's API reports,
//! narrowed once to plain owned values.

use vstd::prelude::*;
use vstd::string::*;

use crate::text;
use crate::time;
use crate::time::Timestamp;

verus! {

/// A snapshot of the authenticated core rate-limit budget.
///
/// Authenticated REST gives 5000 requests an hour; this is how much of that is
/// left. Read at connect time and refreshed from every poll's `X-RateLimit-*`
/// response headers.
#[derive(Debug, Clone, Copy, PartialEq, Eq, Structural)]
pub struct RateLimit {
    pub remaining: u64,
    pub limit: u64,
    /// When the window resets. `None` if the header was missing or unparseable.
    pub reset: Option<Timestamp>,
}

impl RateLimit {
    /// Whether the reset, where there is one, is an instant of the calendar.
    pub open spec fn valid(self) -> bool {
        self.reset matches Some(reset) ==> reset.valid()
    }

    /// Whole minutes from `now` until the limit resets: 0 if it is already past
    /// or unknown.
    pub open spec fn minutes_left(self, now: Timestamp) -> int {
        match self.reset {
            Some(reset) => {
                let seconds = time::seconds_between(now, reset);
                if seconds < 0 {
                    0
                } else {
                    seconds / 60
                }
            },
            None => 0,
        }
    }

    /// Whether the budget is fully spent and the window has not reset by `now`.
    pub open spec fn spent(self, now: Timestamp) -> bool {
        self.remaining == 0 && (self.reset matches Some(reset) && reset.after(now))
    }

    /// Whole minutes from `now` until the limit resets: 0 if it is already past
    /// or unknown.
    pub fn resets_in_minutes_at(&self, now: Timestamp) -> (r: i64)
        requires
            self.valid(),
            now.valid(),
        ensures
            r == self.minutes_left(now),
    {
        match self.reset {
            Some(reset) => {
                let seconds: i64 = time::elapsed_seconds(now, reset);
                if seconds < 0 {
                    0
                } else {
                    seconds / 60
                }
            },
            None => 0,
        }
    }

    /// Whole minutes until the limit resets: 0 if it is already past or
    /// unknown. For the "resets in N min" readout. The clock decides which
    /// reading of [`RateLimit::minutes_left`] comes back.
    pub fn resets_in_minutes(&self) -> (r: i64)
        requires
            self.valid(),
        ensures
            r >= 0,
            self.reset is None ==> r == 0,
            exists|now: Timestamp|
                now.on_the_clock() && r == #[trigger] self.minutes_left(now),
    {
        let now: Timestamp = time::now();
        self.resets_in_minutes_at(now)
    }

    /// Whether the budget is fully spent and the window has not reset by `now`:
    /// the signal to pause polling rather than earn a 403.
    pub fn is_exhausted_at(&self, now: Timestamp) -> (r: bool)
        ensures
            r == self.spent(now),
    {
        match self.reset {
            Some(reset) => self.remaining == 0 && reset.is_after(now),
            None => false,
        }
    }

    /// Whether the budget is fully spent and the window has not reset yet. The
    /// clock decides which reading of [`RateLimit::spent`] comes back.
    pub fn is_exhausted(&self) -> (r: bool)
        ensures
            r ==> self.remaining == 0 && self.reset is Some,
            exists|now: Timestamp|
                now.on_the_clock() && r == #[trigger] self.spent(now),
    {
        let now: Timestamp = time::now();
        self.is_exhausted_at(now)
    }
}

/// A repository we can watch; everything downstream keys off `owner/name`.
#[derive(Debug, PartialEq, Eq)]
pub struct Repo {
    pub owner: String,
    pub name: String,
    pub private: bool,
}

impl Clone for Repo {
    fn clone(&self) -> (r: Self)
        ensures
            r == *self,
    {
        Repo { owner: self.owner.clone(), name: self.name.clone(), private: self.private }
    }
}

/// What the API says of a repository, as far as a [`Repo`] needs it.
#[derive(Debug)]
pub struct RepositoryModel {
    /// The owner's login, where the response names one.
    pub owner: Option<String>,
    pub name: String,
    pub private: Option<bool>,
}

/// `owner/name`.
pub open spec fn joined_name(owner: Seq<char>, name: Seq<char>) -> Seq<char> {
    owner.push('/') + name
}

/// `owner/name`, GitHub's identifier of a repository.
pub fn join_name(owner: &str, name: &str) -> (r: String)
    ensures
        r@ == joined_name(owner@, name@),
{
    let mut out: String = owner.to_owned();
    out.push('/');
    out.append(name);
    out
}

/// Putting the two halves of a cut `owner/name` together gives it back.
pub proof fn law_split_name_joins(full: Seq<char>)
    requires
        text::cut_first(full, '/') is Some,
    ensures
        ({
            let (owner, name) = text::cut_first(full, '/').unwrap();
            joined_name(owner, name) == full && !owner.contains('/')
        }),
{
    full.index_of_first_ensures('/');
    let i = full.index_of_first('/').unwrap();
    let owner = full.take(i);
    assert(joined_name(owner, full.skip(i + 1)) =~= full);
    assert(forall|j: int| 0 <= j < owner.len() ==> owner[j] == full[j]);
}

impl Repo {
    /// `owner/name`.
    pub open spec fn spec_full_name(self) -> Seq<char> {
        joined_name(self.owner@, self.name@)
    }

    /// `owner/name`: GitHub's canonical repo identifier, and how the watch list
    /// is stored and keyed.
    pub fn full_name(&self) -> (r: String)
        ensures
            r@ == self.spec_full_name(),
    {
        join_name(self.owner.as_str(), self.name.as_str())
    }

    /// Narrow the API's model. `None` for a repo with no owner: it is unusable,
    /// since every API call keys off `owner/name`. An absent `private` means
    /// public.
    pub fn from_model(repo: RepositoryModel) -> (r: Option<Self>)
        ensures
            r == narrowed_repo(repo),
            r is Some == repo.owner is Some,
            r matches Some(known) ==> known.owner == repo.owner.unwrap() && known.name == repo.name,
            r matches Some(known) ==> known.private == (repo.private == Some(true)),
    {
        match repo.owner {
            Some(owner) => Some(
                Repo {
                    owner,
                    name: repo.name,
                    private: match repo.private {
                        Some(private) => private,
                        None => false,
                    },
                },
            ),
            None => None,
        }
    }
}

/// The repository that a model narrows to, where it has an owner.
pub open spec fn narrowed_repo(repo: RepositoryModel) -> Option<Repo> {
    match repo.owner {
        Some(owner) => Some(
            Repo { owner, name: repo.name, private: repo.private == Some(true) },
        ),
        None => None,
    }
}

/// Where a run is in its lifecycle.
#[derive(Debug, Clone, Copy, PartialEq, Eq, Structural)]
pub enum RunStatus {
    Queued,
    InProgress,
    Completed,
    /// A cancel was asked for and the run has not stopped yet. Only shown here:
    /// the API keeps reporting the run in progress.
    Cancelling,
    /// A status string we don't recognise.
    Unknown,
}

/// The status that an API string stands for.
pub open spec fn status_named(status: Seq<char>) -> RunStatus {
    if status == "queued"@ || status == "pending"@ || status == "waiting"@ || status
        == "requested"@ {
        RunStatus::Queued
    } else if status == "in_progress"@ {
        RunStatus::InProgress
    } else if status == "completed"@ {
        RunStatus::Completed
    } else {
        RunStatus::Unknown
    }
}

impl RunStatus {
    /// Whether a run with this status is still doing work.
    pub open spec fn active(self) -> bool {
        self is Queued || self is InProgress
    }

    /// The status that an API string stands for.
    pub fn from_api(status: &str) -> (r: Self)
        ensures
            r == status_named(status@),
    {
        if text::same_text(status, "queued") || text::same_text(status, "pending")
            || text::same_text(status, "waiting") || text::same_text(status, "requested") {
            RunStatus::Queued
        } else if text::same_text(status, "in_progress") {
            RunStatus::InProgress
        } else if text::same_text(status, "completed") {
            RunStatus::Completed
        } else {
            RunStatus::Unknown
        }
    }

    /// A run still doing work; the header counts these as "running".
    pub fn is_active(self) -> (r: bool)
        ensures
            r == self.active(),
    {
        match self {
            RunStatus::Queued | RunStatus::InProgress => true,
            _ => false,
        }
    }
}

/// The API never reports a run as cancelling: that status is the client's own.
pub proof fn law_api_never_cancelling(status: Seq<char>)
    ensures
        status_named(status) !is Cancelling,
{
}

/// What a user can do to a run.
#[derive(Debug, Clone, Copy, PartialEq, Eq, Structural)]
pub enum RunAction {
    Rerun,
    RerunFailed,
    Cancel,
}

/// How a completed run turned out. `None` on a run means not completed yet.
#[derive(Debug, Clone, Copy, PartialEq, Eq, Structural)]
pub enum Conclusion {
    Success,
    Failure,
    Cancelled,
    Skipped,
    TimedOut,
    ActionRequired,
    Neutral,
    StartupFailure,
    Stale,
    Unknown,
}

/// The conclusion that an API string stands for.
pub open spec fn conclusion_named(conclusion: Seq<char>) -> Conclusion {
    if conclusion == "success"@ {
        Conclusion::Success
    } else if conclusion == "failure"@ {
        Conclusion::Failure
    } else if conclusion == "cancelled"@ {
        Conclusion::Cancelled
    } else if conclusion == "skipped"@ {
        Conclusion::Skipped
    } else if conclusion == "timed_out"@ {
        Conclusion::TimedOut
    } else if conclusion == "action_required"@ {
        Conclusion::ActionRequired
    } else if conclusion == "neutral"@ {
        Conclusion::Neutral
    } else if conclusion == "startup_failure"@ {
        Conclusion::StartupFailure
    } else if conclusion == "stale"@ {
        Conclusion::Stale
    } else {
        Conclusion::Unknown
    }
}

impl Conclusion {
    /// Whether this is a red, went-wrong outcome.
    pub open spec fn failed(self) -> bool {
        self is Failure || self is TimedOut || self is StartupFailure
    }

    /// The conclusion that an API string stands for.
    pub fn from_api(conclusion: &str) -> (r: Self)
        ensures
            r == conclusion_named(conclusion@),
    {
        if text::same_text(conclusion, "success") {
            Conclusion::Success
        } else if text::same_text(conclusion, "failure") {
            Conclusion::Failure
        } else if text::same_text(conclusion, "cancelled") {
            Conclusion::Cancelled
        } else if text::same_text(conclusion, "skipped") {
            Conclusion::Skipped
        } else if text::same_text(conclusion, "timed_out") {
            Conclusion::TimedOut
        } else if text::same_text(conclusion, "action_required") {
            Conclusion::ActionRequired
        } else if text::same_text(conclusion, "neutral") {
            Conclusion::Neutral
        } else if text::same_text(conclusion, "startup_failure") {
            Conclusion::StartupFailure
        } else if text::same_text(conclusion, "stale") {
            Conclusion::Stale
        } else {
            Conclusion::Unknown
        }
    }

    /// A red, went-wrong outcome: what a failure notification keys off, and
    /// what the header counts as "failing".
    pub fn is_failure(self) -> (r: bool)
        ensures
            r == self.failed(),
    {
        match self {
            Conclusion::Failure | Conclusion::TimedOut | Conclusion::StartupFailure => true,
            _ => false,
        }
    }
}

/// The conclusion of an optional API string.
pub open spec fn optional_conclusion(conclusion: Option<String>) -> Option<Conclusion> {
    match conclusion {
        Some(c) => Some(conclusion_named(c@)),
        None => None,
    }
}

fn conclusion_from(conclusion: &Option<String>) -> (r: Option<Conclusion>)
    ensures
        r == optional_conclusion(*conclusion),
{
    match conclusion {
        Some(c) => Some(Conclusion::from_api(c.as_str())),
        None => None,
    }
}

/// One workflow run, the unit the list shows.
#[derive(Debug)]
pub struct WorkflowRun {
    /// GitHub's run id: the stable key the list reconciles on.
    pub id: u64,
    pub run_number: i64,
    /// The workflow's name, e.g. "CI".
    pub workflow_name: String,
    /// `owner/name` of the repo this run belongs to.
    pub repo: String,
    pub head_branch: String,
    pub event: String,
    pub status: RunStatus,
    pub conclusion: Option<Conclusion>,
    pub head_sha: String,
    pub commit_message: String,
    pub commit_author: String,
    pub created_at: Timestamp,
    pub updated_at: Timestamp,
    /// The run's page on github.com.
    pub html_url: String,
}

impl Clone for WorkflowRun {
    fn clone(&self) -> (r: Self)
        ensures
            r == *self,
    {
        WorkflowRun {
            id: self.id,
            run_number: self.run_number,
            workflow_name: self.workflow_name.clone(),
            repo: self.repo.clone(),
            head_branch: self.head_branch.clone(),
            event: self.event.clone(),
            status: self.status,
            conclusion: self.conclusion,
            head_sha: self.head_sha.clone(),
            commit_message: self.commit_message.clone(),
            commit_author: self.commit_author.clone(),
            created_at: self.created_at,
            updated_at: self.updated_at,
            html_url: self.html_url.clone(),
        }
    }
}

impl WorkflowRun {
    /// Whether two runs hold the same.
    pub fn same(&self, other: &WorkflowRun) -> (r: bool)
        ensures
            r == (self@ == other@),
    {
        self.id == other.id && self.run_number == other.run_number && text::same_text(
            self.workflow_name.as_str(),
            other.workflow_name.as_str(),
        ) && text::same_text(self.repo.as_str(), other.repo.as_str()) && text::same_text(
            self.head_branch.as_str(),
            other.head_branch.as_str(),
        ) && text::same_text(self.event.as_str(), other.event.as_str()) && self.status
            == other.status && same_conclusion(self.conclusion, other.conclusion)
            && text::same_text(self.head_sha.as_str(), other.head_sha.as_str())
            && text::same_text(self.commit_message.as_str(), other.commit_message.as_str())
            && text::same_text(self.commit_author.as_str(), other.commit_author.as_str())
            && self.created_at == other.created_at && self.updated_at == other.updated_at
            && text::same_text(self.html_url.as_str(), other.html_url.as_str())
    }
}

/// Whether two lists of runs hold the same.
pub fn same_runs(a: &Vec<WorkflowRun>, b: &Vec<WorkflowRun>) -> (r: bool)
    ensures
        r == (run_views(a@) == run_views(b@)),
{
    if a.len() != b.len() {
        assert(run_views(a@).len() != run_views(b@).len());
        return false;
    }
    let mut i: usize = 0;
    while i < a.len()
        invariant
            i <= a@.len() == b@.len(),
            forall|j: int| 0 <= j < i ==> (#[trigger] a@[j])@ == b@[j]@,
        decreases a@.len() - i,
    {
        if !a[i].same(&b[i]) {
            assert(run_views(a@)[i as int] == a@[i as int]@);
            assert(run_views(b@)[i as int] == b@[i as int]@);
            return false;
        }
        i += 1;
    }
    assert(run_views(a@) =~= run_views(b@));
    true
}

/// What the API says of a run, as far as a [`WorkflowRun`] needs it.
#[derive(Debug)]
pub struct RunModel {
    pub id: u64,
    pub run_number: i64,
    pub name: String,
    pub head_branch: String,
    pub event: String,
    pub status: String,
    pub conclusion: Option<String>,
    pub head_sha: String,
    pub commit_message: String,
    pub commit_author: String,
    pub created_at: Timestamp,
    pub updated_at: Timestamp,
    pub html_url: String,
}

/// What a run holds, its texts as characters.
pub ghost struct RunView {
    pub id: u64,
    pub run_number: i64,
    pub workflow_name: Seq<char>,
    pub repo: Seq<char>,
    pub head_branch: Seq<char>,
    pub event: Seq<char>,
    pub status: RunStatus,
    pub conclusion: Option<Conclusion>,
    pub head_sha: Seq<char>,
    pub commit_message: Seq<char>,
    pub commit_author: Seq<char>,
    pub created_at: Timestamp,
    pub updated_at: Timestamp,
    pub html_url: Seq<char>,
}

impl View for WorkflowRun {
    type V = RunView;

    open spec fn view(&self) -> RunView {
        RunView {
            id: self.id,
            run_number: self.run_number,
            workflow_name: self.workflow_name@,
            repo: self.repo@,
            head_branch: self.head_branch@,
            event: self.event@,
            status: self.status,
            conclusion: self.conclusion,
            head_sha: self.head_sha@,
            commit_message: self.commit_message@,
            commit_author: self.commit_author@,
            created_at: self.created_at,
            updated_at: self.updated_at,
            html_url: self.html_url@,
        }
    }
}

impl RunView {
    /// Whether the run's times are instants of the calendar.
    pub open spec fn valid(self) -> bool {
        self.created_at.valid() && self.updated_at.valid()
    }
}

/// What a list of runs holds.
pub open spec fn run_views(runs: Seq<WorkflowRun>) -> Seq<RunView> {
    runs.map_values(|r: WorkflowRun| r@)
}

/// The run that a model narrows to.
pub open spec fn narrowed_run(run: RunModel, repo: Seq<char>) -> RunView {
    RunView {
        id: run.id,
        run_number: run.run_number,
        workflow_name: run.name@,
        repo,
        head_branch: run.head_branch@,
        event: run.event@,
        status: status_named(run.status@),
        conclusion: optional_conclusion(run.conclusion),
        head_sha: run.head_sha@,
        commit_message: run.commit_message@,
        commit_author: run.commit_author@,
        created_at: run.created_at,
        updated_at: run.updated_at,
        html_url: run.html_url@,
    }
}

impl WorkflowRun {
    /// Narrow the API's model. `repo` is the `owner/name` that was asked for.
    pub fn from_model(run: RunModel, repo: String) -> (r: Self)
        ensures
            r@ == narrowed_run(run, repo@),
            r.id == run.id,
            r.run_number == run.run_number,
            r.workflow_name@ == run.name@,
            r.repo@ == repo@,
            r.head_branch@ == run.head_branch@,
            r.event@ == run.event@,
            r.status == status_named(run.status@),
            r.conclusion is Some == run.conclusion is Some,
            run.conclusion matches Some(c) ==> r.conclusion == Some(conclusion_named(c@)),
            r.head_sha@ == run.head_sha@,
            r.commit_message@ == run.commit_message@,
            r.commit_author@ == run.commit_author@,
            r.created_at == run.created_at,
            r.updated_at == run.updated_at,
            r.html_url@ == run.html_url@,
    {
        let status: RunStatus = RunStatus::from_api(run.status.as_str());
        let conclusion: Option<Conclusion> = conclusion_from(&run.conclusion);
        WorkflowRun {
            id: run.id,
            run_number: run.run_number,
            workflow_name: run.name,
            repo,
            head_branch: run.head_branch,
            event: run.event,
            status,
            conclusion,
            head_sha: run.head_sha,
            commit_message: run.commit_message,
            commit_author: run.commit_author,
            created_at: run.created_at,
            updated_at: run.updated_at,
            html_url: run.html_url,
        }
    }
}

/// Cutting an `owner/name` at its first slash gives the two back, unless the
/// owner itself has a slash.
pub proof fn law_full_name_splits(owner: Seq<char>, name: Seq<char>)
    requires
        !owner.contains('/'),
    ensures
        text::cut_first(joined_name(owner, name), '/') == Some((owner, name)),
{
    let full = joined_name(owner, name);
    full.index_of_first_ensures('/');
    assert(full[owner.len() as int] == '/');
    assert(full.contains('/'));
    assert forall|j: int| 0 <= j < owner.len() implies full[j] != '/' by {
        assert(full[j] == owner[j]);
    }
    assert(full.take(owner.len() as int) =~= owner);
    assert(full.skip(owner.len() as int + 1) =~= name);
}

/// One step of a job.
#[derive(Debug, PartialEq, Eq)]
pub struct Step {
    pub name: String,
    /// The step's place in its job, from 1.
    pub number: i64,
    pub status: RunStatus,
    pub conclusion: Option<Conclusion>,
    pub started_at: Option<Timestamp>,
    pub completed_at: Option<Timestamp>,
}

/// What a step holds, its name as characters.
pub ghost struct StepView {
    pub name: Seq<char>,
    pub number: i64,
    pub status: RunStatus,
    pub conclusion: Option<Conclusion>,
    pub started_at: Option<Timestamp>,
    pub completed_at: Option<Timestamp>,
}

impl View for Step {
    type V = StepView;

    open spec fn view(&self) -> StepView {
        StepView {
            name: self.name@,
            number: self.number,
            status: self.status,
            conclusion: self.conclusion,
            started_at: self.started_at,
            completed_at: self.completed_at,
        }
    }
}

/// Whether an instant, where there is one, is on the calendar.
pub open spec fn valid_instant(at: Option<Timestamp>) -> bool {
    at matches Some(t) ==> t.valid()
}

impl Step {
    /// Whether the step's times are instants of the calendar.
    pub open spec fn valid(self) -> bool {
        valid_instant(self.started_at) && valid_instant(self.completed_at)
    }

    /// Whether two steps hold the same.
    pub fn same(&self, other: &Step) -> (r: bool)
        ensures
            r == (self@ == other@),
    {
        text::same_text(self.name.as_str(), other.name.as_str()) && self.number == other.number
            && self.status == other.status && same_conclusion(self.conclusion, other.conclusion)
            && same_instant(self.started_at, other.started_at) && same_instant(
            self.completed_at,
            other.completed_at,
        )
    }
}

fn same_conclusion(a: Option<Conclusion>, b: Option<Conclusion>) -> (r: bool)
    ensures
        r == (a == b),
{
    match (a, b) {
        (Some(x), Some(y)) => x == y,
        (None, None) => true,
        _ => false,
    }
}

fn same_instant(a: Option<Timestamp>, b: Option<Timestamp>) -> (r: bool)
    ensures
        r == (a == b),
{
    match (a, b) {
        (Some(x), Some(y)) => x == y,
        (None, None) => true,
        _ => false,
    }
}

/// What a list of steps holds.
pub open spec fn step_views(steps: Seq<Step>) -> Seq<StepView> {
    steps.map_values(|s: Step| s@)
}

/// One job of a run, with its steps.
#[derive(Debug, PartialEq, Eq)]
pub struct Job {
    pub id: u64,
    pub name: String,
    pub status: RunStatus,
    pub conclusion: Option<Conclusion>,
    pub started_at: Option<Timestamp>,
    pub completed_at: Option<Timestamp>,
    pub steps: Vec<Step>,
    /// The check run whose annotations belong to this job.
    pub check_run_id: Option<u64>,
}

/// What a job holds, its name as characters.
pub ghost struct JobView {
    pub id: u64,
    pub name: Seq<char>,
    pub status: RunStatus,
    pub conclusion: Option<Conclusion>,
    pub started_at: Option<Timestamp>,
    pub completed_at: Option<Timestamp>,
    pub steps: Seq<StepView>,
    pub check_run_id: Option<u64>,
}

impl View for Job {
    type V = JobView;

    open spec fn view(&self) -> JobView {
        JobView {
            id: self.id,
            name: self.name@,
            status: self.status,
            conclusion: self.conclusion,
            started_at: self.started_at,
            completed_at: self.completed_at,
            steps: step_views(self.steps@),
            check_run_id: self.check_run_id,
        }
    }
}

/// What a list of jobs holds.
pub open spec fn job_views(jobs: Seq<Job>) -> Seq<JobView> {
    jobs.map_values(|j: Job| j@)
}

/// What the API says of a job, as far as a [`Job`] needs it.
#[derive(Debug)]
pub struct JobModel {
    pub id: u64,
    pub name: String,
    pub status: String,
    pub conclusion: Option<String>,
    pub started_at: Timestamp,
    pub completed_at: Option<Timestamp>,
    pub steps: Vec<StepModel>,
    pub check_run_url: String,
}

/// What the API says of a step, as far as a [`Step`] needs it.
#[derive(Debug)]
pub struct StepModel {
    pub name: String,
    pub number: i64,
    pub status: String,
    pub conclusion: Option<String>,
    pub started_at: Option<Timestamp>,
    pub completed_at: Option<Timestamp>,
}

/// The step that a model narrows to.
pub open spec fn narrowed_step(step: StepModel) -> StepView {
    StepView {
        name: step.name@,
        number: step.number,
        status: status_named(step.status@),
        conclusion: optional_conclusion(step.conclusion),
        started_at: step.started_at,
        completed_at: step.completed_at,
    }
}

/// What stands behind the last slash of a URL.
pub open spec fn last_segment(url: Seq<char>) -> Seq<char> {
    match text::cut_last(url, '/') {
        Some((_, last)) => last,
        None => url,
    }
}

/// The job that a model narrows to.
pub open spec fn narrowed_job(job: JobModel) -> JobView {
    JobView {
        id: job.id,
        name: job.name@,
        status: status_named(job.status@),
        conclusion: optional_conclusion(job.conclusion),
        started_at: Some(job.started_at),
        completed_at: job.completed_at,
        steps: job.steps@.map_values(|s: StepModel| narrowed_step(s)),
        check_run_id: text::number_in(last_segment(job.check_run_url@)),
    }
}

/// The id at the end of a check run's URL.
pub fn check_run_id(url: &str) -> (r: Option<u64>)
    ensures
        r == text::number_in(last_segment(url@)),
{
    match text::rsplit_once(url, '/') {
        Some((_, last)) => text::parse_number(last.as_str()),
        None => text::parse_number(url),
    }
}

impl Step {
    /// Narrow the API's model.
    pub fn from_model(step: StepModel) -> (r: Self)
        ensures
            r@ == narrowed_step(step),
            r.name@ == step.name@,
            r.number == step.number,
            r.status == status_named(step.status@),
            r.conclusion is Some == step.conclusion is Some,
            step.conclusion matches Some(c) ==> r.conclusion == Some(conclusion_named(c@)),
            r.started_at == step.started_at,
            r.completed_at == step.completed_at,
    {
        let status: RunStatus = RunStatus::from_api(step.status.as_str());
        let conclusion: Option<Conclusion> = conclusion_from(&step.conclusion);
        Step {
            name: step.name,
            number: step.number,
            status,
            conclusion,
            started_at: step.started_at,
            completed_at: step.completed_at,
        }
    }
}

impl Job {
    /// Whether the times of the job and of its steps are instants of the
    /// calendar.
    pub open spec fn valid(self) -> bool {
        &&& valid_instant(self.started_at)
        &&& valid_instant(self.completed_at)
        &&& forall|i: int| 0 <= i < self.steps@.len() ==> (#[trigger] self.steps@[i]).valid()
    }

    /// Narrow the API's model.
    pub fn from_model(job: JobModel) -> (r: Self)
        ensures
            r@ == narrowed_job(job),
            r.id == job.id,
            r.name@ == job.name@,
            r.status == status_named(job.status@),
            r.conclusion is Some == job.conclusion is Some,
            job.conclusion matches Some(c) ==> r.conclusion == Some(conclusion_named(c@)),
            r.started_at == Some(job.started_at),
            r.completed_at == job.completed_at,
            r.steps@.len() == job.steps@.len(),
    {
        let status: RunStatus = RunStatus::from_api(job.status.as_str());
        let conclusion: Option<Conclusion> = conclusion_from(&job.conclusion);
        let check_run: Option<u64> = check_run_id(job.check_run_url.as_str());
        let mut steps: Vec<Step> = Vec::new();
        for step in it: job.steps
            invariant
                it.seq() == job.steps@,
                step_views(steps@) == job.steps@.take(it.index() as int).map_values(
                    |s: StepModel| narrowed_step(s),
                ),
        {
            let narrow: Step = Step::from_model(step);
            let ghost before = steps@;
            steps.push(narrow);
            assert(step_views(steps@) =~= step_views(before).push(narrow@));
            assert(step_views(steps@) =~= job.steps@.take(it.index() as int + 1).map_values(
                |s: StepModel| narrowed_step(s),
            ));
        }
        assert(job.steps@.take(job.steps@.len() as int) =~= job.steps@);
        assert(step_views(steps@).len() == job.steps@.len());
        Job {
            id: job.id,
            name: job.name,
            status,
            conclusion,
            started_at: Some(job.started_at),
            completed_at: job.completed_at,
            steps,
            check_run_id: check_run,
        }
    }

    /// Whether two jobs hold the same.
    pub fn same(&self, other: &Job) -> (r: bool)
        ensures
            r == (self@ == other@),
    {
        let alike: bool = self.id == other.id && text::same_text(
            self.name.as_str(),
            other.name.as_str(),
        ) && self.status == other.status && same_conclusion(self.conclusion, other.conclusion)
            && same_instant(self.started_at, other.started_at) && same_instant(
            self.completed_at,
            other.completed_at,
        ) && same_number(self.check_run_id, other.check_run_id);
        if !alike || self.steps.len() != other.steps.len() {
            assert(step_views(self.steps@).len() == self.steps@.len());
            assert(step_views(other.steps@).len() == other.steps@.len());
            return false;
        }
        let mut i: usize = 0;
        while i < self.steps.len()
            invariant
                i <= self.steps@.len() == other.steps@.len(),
                forall|j: int| 0 <= j < i ==> (#[trigger] self.steps@[j])@ == other.steps@[j]@,
            decreases self.steps@.len() - i,
        {
            if !self.steps[i].same(&other.steps[i]) {
                assert(step_views(self.steps@)[i as int] == self.steps@[i as int]@);
                assert(step_views(other.steps@)[i as int] == other.steps@[i as int]@);
                return false;
            }
            i += 1;
        }
        assert(step_views(self.steps@) =~= step_views(other.steps@));
        true
    }
}

fn same_number(a: Option<u64>, b: Option<u64>) -> (r: bool)
    ensures
        r == (a == b),
{
    match (a, b) {
        (Some(x), Some(y)) => x == y,
        (None, None) => true,
        _ => false,
    }
}

/// Whether two lists of jobs hold the same.
pub fn same_jobs(a: &Vec<Job>, b: &Vec<Job>) -> (r: bool)
    ensures
        r == (job_views(a@) == job_views(b@)),
{
    if a.len() != b.len() {
        assert(job_views(a@).len() != job_views(b@).len());
        return false;
    }
    let mut i: usize = 0;
    while i < a.len()
        invariant
            i <= a@.len() == b@.len(),
            forall|j: int| 0 <= j < i ==> (#[trigger] a@[j])@ == b@[j]@,
        decreases a@.len() - i,
    {
        if !a[i].same(&b[i]) {
            assert(job_views(a@)[i as int] == a@[i as int]@);
            assert(job_views(b@)[i as int] == b@[i as int]@);
            return false;
        }
        i += 1;
    }
    assert(job_views(a@) =~= job_views(b@));
    true
}

/// How serious an annotation is.
#[derive(Debug, Clone, Copy, PartialEq, Eq, Structural)]
pub enum AnnotationLevel {
    Failure,
    Warning,
    Notice,
}

/// The level that an API string stands for. One that is missing or unknown
/// counts as a notice.
pub open spec fn level_named(level: Option<Seq<char>>) -> AnnotationLevel {
    if level == Some("failure"@) {
        AnnotationLevel::Failure
    } else if level == Some("warning"@) {
        AnnotationLevel::Warning
    } else {
        AnnotationLevel::Notice
    }
}

/// A warning, error or notice that GitHub attaches to a job.
#[derive(Debug, PartialEq, Eq)]
pub struct Annotation {
    pub level: AnnotationLevel,
    pub title: String,
    pub message: String,
    /// `path:line`.
    pub location: String,
    /// The name of the job it belongs to.
    pub job: String,
}

/// What the API says of an annotation, as far as an [`Annotation`] needs it.
#[derive(Debug)]
pub struct AnnotationModel {
    pub level: Option<String>,
    pub title: Option<String>,
    pub message: Option<String>,
    pub path: String,
    pub start_line: u32,
}

/// The characters of an optional string, none when it is missing.
pub open spec fn text_or_empty(t: Option<String>) -> Seq<char> {
    match t {
        Some(s) => s@,
        None => Seq::empty(),
    }
}

/// The view of an optional string.
pub open spec fn optional_text(t: Option<String>) -> Option<Seq<char>> {
    match t {
        Some(s) => Some(s@),
        None => None,
    }
}

fn or_empty(t: Option<String>) -> (r: String)
    ensures
        r@ == text_or_empty(t),
{
    match t {
        Some(s) => s,
        None => String::new(),
    }
}

impl Annotation {
    /// Narrow the API's model, for the job it was fetched for.
    pub fn from_model(model: AnnotationModel, job: &str) -> (r: Self)
        ensures
            r.level == level_named(optional_text(model.level)),
            r.level is Failure == (model.level matches Some(level) && level@ == "failure"@),
            r.level is Warning == (model.level matches Some(level) && level@ == "warning"@),
            r.title@ == text_or_empty(model.title),
            model.title matches Some(title) ==> r.title@ == title@,
            r.message@ == text_or_empty(model.message),
            model.message matches Some(message) ==> r.message@ == message@,
            r.location@ == model.path@ + ":"@ + text::decimal(model.start_line as nat),
            r.job@ == job@,
    {
        proof {
            if let Some(level) = &model.level {
                law_level_names(level@);
            }
        }
        let level: AnnotationLevel = match &model.level {
            Some(level) => if text::same_text(level.as_str(), "failure") {
                AnnotationLevel::Failure
            } else if text::same_text(level.as_str(), "warning") {
                AnnotationLevel::Warning
            } else {
                AnnotationLevel::Notice
            },
            None => AnnotationLevel::Notice,
        };
        let mut location: String = model.path;
        location.append(":");
        let line: String = text::number(model.start_line as u64);
        location.append(line.as_str());
        Annotation {
            level,
            title: or_empty(model.title),
            message: or_empty(model.message),
            location,
            job: job.to_owned(),
        }
    }

    /// The title, or the message where there is no title.
    pub open spec fn spec_headline(self) -> Seq<char> {
        if self.title@.len() == 0 {
            self.message@
        } else {
            self.title@
        }
    }

    /// The location and the job, as far as they are known.
    pub open spec fn spec_context(self) -> Seq<char> {
        if self.location@.len() == 0 {
            self.job@
        } else if self.job@.len() == 0 {
            self.location@
        } else {
            self.location@ + " · "@ + self.job@
        }
    }

    /// The row's title: the annotation's title, or its message without one.
    pub fn headline(&self) -> (r: &str)
        ensures
            r@ == self.spec_headline(),
    {
        if self.title.as_str().unicode_len() == 0 {
            self.message.as_str()
        } else {
            self.title.as_str()
        }
    }

    /// The row's subtitle: where it was raised, as far as that is known.
    pub fn context(&self) -> (r: String)
        ensures
            r@ == self.spec_context(),
    {
        if self.location.as_str().unicode_len() == 0 {
            self.job.clone()
        } else if self.job.as_str().unicode_len() == 0 {
            self.location.clone()
        } else {
            let mut out: String = self.location.clone();
            out.append(" · ");
            out.append(self.job.as_str());
            out
        }
    }
}

/// A narrowed run says what the API said, each value in its own place.
pub proof fn law_narrowing_keeps_a_run(run: RunModel, repo: Seq<char>)
    ensures
        ({
            let r = narrowed_run(run, repo);
            &&& r.id == run.id && r.run_number == run.run_number
            &&& r.workflow_name == run.name@ && r.repo == repo
            &&& r.head_branch == run.head_branch@ && r.event == run.event@
            &&& r.head_sha == run.head_sha@
            &&& r.commit_message == run.commit_message@ && r.commit_author == run.commit_author@
            &&& r.created_at == run.created_at && r.updated_at == run.updated_at
            &&& r.html_url == run.html_url@
            &&& r.status is Completed == (run.status@ == "completed"@)
            &&& r.status is InProgress == (run.status@ == "in_progress"@)
            &&& run.conclusion is None ==> r.conclusion is None
            &&& run.conclusion matches Some(c) ==> r.conclusion is Some && (r.conclusion
                == Some(Conclusion::Failure)) == (c@ == "failure"@) && (r.conclusion == Some(
                Conclusion::Success,
            )) == (c@ == "success"@)
        }),
{
    law_status_names(run.status@);
    if let Some(c) = run.conclusion {
        law_conclusion_names(c@);
    }
}

/// A narrowed step says what the API said, each value in its own place.
pub proof fn law_narrowing_keeps_a_step(step: StepModel)
    ensures
        ({
            let r = narrowed_step(step);
            &&& r.name == step.name@ && r.number == step.number
            &&& r.started_at == step.started_at && r.completed_at == step.completed_at
            &&& r.status is Completed == (step.status@ == "completed"@)
            &&& r.status is InProgress == (step.status@ == "in_progress"@)
            &&& step.conclusion is None ==> r.conclusion is None
            &&& step.conclusion matches Some(c) ==> r.conclusion is Some && (r.conclusion
                == Some(Conclusion::Failure)) == (c@ == "failure"@) && (r.conclusion == Some(
                Conclusion::Success,
            )) == (c@ == "success"@)
        }),
{
    law_status_names(step.status@);
    if let Some(c) = step.conclusion {
        law_conclusion_names(c@);
    }
}

/// A narrowed job says what the API said, each value in its own place, and has
/// the job's steps one for one.
pub proof fn law_narrowing_keeps_a_job(job: JobModel)
    ensures
        ({
            let r = narrowed_job(job);
            &&& r.id == job.id && r.name == job.name@
            &&& r.started_at == Some(job.started_at) && r.completed_at == job.completed_at
            &&& r.status is Completed == (job.status@ == "completed"@)
            &&& r.status is InProgress == (job.status@ == "in_progress"@)
            &&& job.conclusion is None ==> r.conclusion is None
            &&& job.conclusion matches Some(c) ==> r.conclusion is Some && (r.conclusion == Some(
                Conclusion::Failure,
            )) == (c@ == "failure"@) && (r.conclusion == Some(Conclusion::Success)) == (c@
                == "success"@)
            &&& r.steps.len() == job.steps@.len()
            &&& forall|i: int|
                0 <= i < job.steps@.len() ==> (#[trigger] r.steps[i]).name == job.steps@[i].name@
                    && r.steps[i].number == job.steps@[i].number
        }),
{
    law_status_names(job.status@);
    if let Some(c) = job.conclusion {
        law_conclusion_names(c@);
    }
}

/// A job's check run is the number behind the last slash of its URL.
pub proof fn law_check_run_stands_last(job: JobModel, before: Seq<char>, id: u64)
    requires
        job.check_run_url@ == before.push('/') + text::decimal(id as nat),
    ensures
        narrowed_job(job).check_run_id == Some(id),
{
    let digits = text::decimal(id as nat);
    text::law_number_round_trip(id);
    lemma_digits_have_no_slash(id as nat);
    text::law_cut_at_the_last(before, digits, '/');
}

/// A decimal has no slash in it.
proof fn lemma_digits_have_no_slash(n: nat)
    ensures
        !text::decimal(n).contains('/'),
{
    text::law_decimal_is_digits(n);
    let all = text::decimal(n);
    if all.contains('/') {
        let k = choose|k: int| 0 <= k < all.len() && all[k] == '/';
        assert('0' <= all[k]);
    }
}

/// Each status has its own names, and no other name stands for it.
pub proof fn law_status_names(status: Seq<char>)
    ensures
        status_named(status) is Queued <==> status == "queued"@ || status == "pending"@ || status
            == "waiting"@ || status == "requested"@,
        status_named(status) is InProgress <==> status == "in_progress"@,
        status_named(status) is Completed <==> status == "completed"@,
{
    reveal_strlit("queued");
    reveal_strlit("pending");
    reveal_strlit("waiting");
    reveal_strlit("requested");
    reveal_strlit("in_progress");
    reveal_strlit("completed");
    assert("queued"@.len() == 6 && "pending"@.len() == 7 && "waiting"@.len() == 7);
    assert("in_progress"@.len() == 11 && "requested"@.len() == 9 && "completed"@.len() == 9);
    assert("requested"@[0] == 'r' && "completed"@[0] == 'c');
}

/// Each conclusion has its own name, and no other name stands for it.
pub proof fn law_conclusion_names(name: Seq<char>)
    ensures
        conclusion_named(name) is Success <==> name == "success"@,
        conclusion_named(name) is Failure <==> name == "failure"@,
        conclusion_named(name) is Cancelled <==> name == "cancelled"@,
        conclusion_named(name) is Skipped <==> name == "skipped"@,
        conclusion_named(name) is TimedOut <==> name == "timed_out"@,
        conclusion_named(name) is ActionRequired <==> name == "action_required"@,
        conclusion_named(name) is Neutral <==> name == "neutral"@,
        conclusion_named(name) is StartupFailure <==> name == "startup_failure"@,
        conclusion_named(name) is Stale <==> name == "stale"@,
{
    reveal_strlit("success");
    reveal_strlit("failure");
    reveal_strlit("cancelled");
    reveal_strlit("skipped");
    reveal_strlit("timed_out");
    reveal_strlit("action_required");
    reveal_strlit("neutral");
    reveal_strlit("startup_failure");
    reveal_strlit("stale");
    assert("success"@[1] == 'u' && "failure"@[1] == 'a' && "skipped"@[1] == 'k' && "neutral"@[1]
        == 'e');
    assert("success"@.len() == 7 && "failure"@.len() == 7 && "skipped"@.len() == 7
        && "neutral"@.len() == 7);
    assert("cancelled"@.len() == 9 && "timed_out"@.len() == 9 && "stale"@.len() == 5);
    assert("action_required"@.len() == 15 && "startup_failure"@.len() == 15);
    assert("cancelled"@[0] == 'c' && "timed_out"@[0] == 't');
    assert("action_required"@[0] == 'a' && "startup_failure"@[0] == 's');
}

/// The outcomes that went wrong are a failure, a time-out and a failed start,
/// and no other; a run is at work while it is queued or in progress, and never
/// else.
pub proof fn law_what_went_wrong(conclusion: Conclusion, status: RunStatus)
    ensures
        conclusion == Conclusion::Failure || conclusion == Conclusion::TimedOut || conclusion
            == Conclusion::StartupFailure ==> conclusion.failed(),
        conclusion == Conclusion::Success || conclusion == Conclusion::Cancelled || conclusion
            == Conclusion::Skipped || conclusion == Conclusion::ActionRequired || conclusion
            == Conclusion::Neutral || conclusion == Conclusion::Stale || conclusion
            == Conclusion::Unknown ==> !conclusion.failed(),
        status == RunStatus::Queued || status == RunStatus::InProgress ==> status.active(),
        status == RunStatus::Completed || status == RunStatus::Cancelling || status
            == RunStatus::Unknown ==> !status.active(),
{
}

/// An annotation's level has its own name; without a known one it is a notice.
pub proof fn law_level_names(level: Seq<char>)
    ensures
        level_named(Some(level)) is Failure <==> level == "failure"@,
        level_named(Some(level)) is Warning <==> level == "warning"@,
        level_named(None) is Notice,
{
    reveal_strlit("failure");
    reveal_strlit("warning");
    assert("failure"@[0] == 'f' && "warning"@[0] == 'w');
}

/// Equal views mean that two runs agree in every value.
pub proof fn law_run_view_misses_nothing(a: WorkflowRun, b: WorkflowRun)
    requires
        a@ == b@,
    ensures
        a.id == b.id && a.run_number == b.run_number,
        a.workflow_name@ == b.workflow_name@ && a.repo@ == b.repo@,
        a.head_branch@ == b.head_branch@ && a.event@ == b.event@,
        a.status == b.status && a.conclusion == b.conclusion,
        a.head_sha@ == b.head_sha@,
        a.commit_message@ == b.commit_message@ && a.commit_author@ == b.commit_author@,
        a.created_at == b.created_at && a.updated_at == b.updated_at,
        a.html_url@ == b.html_url@,
{
}

/// Equal views mean that two jobs agree in every value, and so do their steps.
pub proof fn law_job_view_misses_nothing(a: Job, b: Job, i: int)
    requires
        a@ == b@,
    ensures
        a.id == b.id && a.name@ == b.name@,
        a.status == b.status && a.conclusion == b.conclusion,
        a.started_at == b.started_at && a.completed_at == b.completed_at,
        a.check_run_id == b.check_run_id,
        a.steps@.len() == b.steps@.len(),
        0 <= i < a.steps@.len() ==> a.steps@[i].name@ == b.steps@[i].name@ && a.steps@[i].number
            == b.steps@[i].number && a.steps@[i].status == b.steps@[i].status
            && a.steps@[i].conclusion == b.steps@[i].conclusion && a.steps@[i].started_at
            == b.steps@[i].started_at && a.steps@[i].completed_at == b.steps@[i].completed_at,
{
    assert(step_views(a.steps@).len() == a.steps@.len());
    assert(step_views(b.steps@).len() == b.steps@.len());
    if 0 <= i < a.steps@.len() {
        assert(step_views(a.steps@)[i] == a.steps@[i]@);
        assert(step_views(b.steps@)[i] == b.steps@[i]@);
    }
}

/// The minutes until a reset are whole ones: a started minute is not counted,
/// and a reset that is past or unknown is no minute away.
pub proof fn law_whole_minutes_are_left(rate: RateLimit, now: Timestamp, minutes: int, rest: int)
    requires
        minutes >= 0,
        0 <= rest < 60,
    ensures
        rate.reset is None ==> rate.minutes_left(now) == 0,
        rate.reset matches Some(reset) ==> time::seconds_between(now, reset) < 0
            ==> rate.minutes_left(now) == 0,
        rate.reset matches Some(reset) ==> time::seconds_between(now, reset) == 60 * minutes + rest
            ==> rate.minutes_left(now) == minutes,
{
    assert((60 * minutes + rest) / 60 == minutes);
}

/// A budget is spent while nothing remains of it and its reset lies ahead: one
/// request left, a reset that has come or an unknown one means it is not.
pub proof fn law_spent_until_the_reset(rate: RateLimit, now: Timestamp)
    ensures
        rate.remaining > 0 ==> !rate.spent(now),
        rate.reset is None ==> !rate.spent(now),
        rate.reset matches Some(reset) ==> rate.remaining == 0 && reset.secs > now.secs
            ==> rate.spent(now),
        rate.reset matches Some(reset) ==> reset.secs < now.secs ==> !rate.spent(now),
        rate.reset matches Some(reset) ==> reset == now ==> !rate.spent(now),
{
}

/// An annotation is headed by its title, or by its message where the title is
/// empty; its context names the place and the job, as far as they are known.
pub proof fn law_annotation_rows(a: Annotation)
    ensures
        a.title@.len() > 0 ==> a.spec_headline() == a.title@,
        a.title@.len() == 0 ==> a.spec_headline() == a.message@,
        a.location@.len() == 0 ==> a.spec_context() == a.job@,
        a.job@.len() == 0 ==> a.spec_context() == a.location@,
        a.location@.len() > 0 && a.job@.len() > 0 ==> a.spec_context() == a.location@ + " · "@
            + a.job@,
{
    if a.location@.len() == 0 && a.job@.len() == 0 {
        assert(a.location@ =~= a.job@);
    }
}

/// A repository is named by its owner and its name, a slash between them, and
/// one without an owner is none.
pub proof fn law_narrowing_keeps_a_repo(repo: RepositoryModel)
    ensures
        repo.owner is None <==> narrowed_repo(repo) is None,
        narrowed_repo(repo) matches Some(r) ==> repo.owner == Some(r.owner) && r.name == repo.name,
        narrowed_repo(repo) matches Some(r) ==> r.spec_full_name() == r.owner@ + seq!['/']
            + r.name@,
        narrowed_repo(repo) matches Some(r) ==> (r.private <==> repo.private == Some(true)),
{
    if let Some(r) = narrowed_repo(repo) {
        assert(r.spec_full_name() =~= r.owner@ + seq!['/'] + r.name@);
    }
}

} // verus!
