//! The run detail page: a run's metadata plus its jobs, their steps and the
//! annotations. The page stays live while it is open: fresh run data comes in
//! with every poll, the jobs are rebuilt only when they actually changed, and
//! expanded rows stay expanded across a refresh.

use vstd::prelude::*;
use vstd::string::*;
use vstd::utf8::*;

use crate::components::run_row;
use crate::github::client;
use crate::github::types;
use crate::github::types::{Annotation, AnnotationLevel, Conclusion, Job, RunStatus, Step, WorkflowRun};
use crate::text;
use crate::time;
use crate::time::Timestamp;

verus! {

/// "45s", "1m" or "1m 23s" for a span of whole seconds, clamped at zero.
pub open spec fn duration_of(seconds: int) -> Seq<char> {
    let s = if seconds < 0 {
        0
    } else {
        seconds
    };
    if s < 60 {
        text::decimal(s as nat) + "s"@
    } else if s % 60 == 0 {
        text::decimal((s / 60) as nat) + "m"@
    } else {
        text::decimal((s / 60) as nat) + "m "@ + text::decimal((s % 60) as nat) + "s"@
    }
}

/// "45s" / "1m 23s" between two instants (clamped at zero).
pub fn format_duration(from: Timestamp, to: Timestamp) -> (r: String)
    requires
        from.valid(),
        to.valid(),
    ensures
        r@ == duration_of(time::seconds_between(from, to)),
{
    let elapsed: i64 = time::elapsed_seconds(from, to);
    let seconds: u64 = if elapsed < 0 {
        0
    } else {
        elapsed as u64
    };
    if seconds < 60 {
        let mut out: String = text::number(seconds);
        out.append("s");
        out
    } else {
        let minutes: u64 = seconds / 60;
        let rest: u64 = seconds % 60;
        let mut out: String = text::number(minutes);
        if rest == 0 {
            out.append("m");
        } else {
            out.append("m ");
            let digits: String = text::number(rest);
            out.append(digits.as_str());
            out.append("s");
        }
        out
    }
}

/// The elapsed text for a job or step given its start and (maybe) end, as seen
/// at `now`.
pub open spec fn elapsed_text(
    started: Option<Timestamp>,
    completed: Option<Timestamp>,
    now: Timestamp,
) -> Seq<char> {
    match (started, completed) {
        (Some(start), Some(end)) => duration_of(time::seconds_between(start, end)),
        (Some(start), None) => "running · "@ + duration_of(time::seconds_between(start, now)),
        _ => Seq::empty(),
    }
}

/// The elapsed text for a job or step given its start and (maybe) end, as seen
/// at `now`.
pub fn duration_between(
    started: Option<Timestamp>,
    completed: Option<Timestamp>,
    now: Timestamp,
) -> (r: String)
    requires
        types::valid_instant(started),
        types::valid_instant(completed),
        now.valid(),
    ensures
        r@ == elapsed_text(started, completed, now),
{
    match (started, completed) {
        (Some(start), Some(end)) => format_duration(start, end),
        (Some(start), None) => {
            let mut out: String = "running · ".to_owned();
            let elapsed: String = format_duration(start, now);
            out.append(elapsed.as_str());
            out
        },
        _ => String::new(),
    }
}

/// A job's elapsed text, as seen at `now`.
pub fn job_duration(job: &Job, now: Timestamp) -> (r: String)
    requires
        types::valid_instant(job.started_at),
        types::valid_instant(job.completed_at),
        now.valid(),
    ensures
        r@ == elapsed_text(job.started_at, job.completed_at, now),
{
    duration_between(job.started_at, job.completed_at, now)
}

/// A step's elapsed text, as seen at `now`.
pub fn step_duration(step: &Step, now: Timestamp) -> (r: String)
    requires
        step.valid(),
        now.valid(),
    ensures
        r@ == elapsed_text(step.started_at, step.completed_at, now),
{
    duration_between(step.started_at, step.completed_at, now)
}

/// A level icon for an annotation row: its name and its colour class.
pub fn annotation_icon(level: AnnotationLevel) -> (r: (&'static str, &'static str))
    ensures
        r.0@ == icon_of(level).0,
        r.1@ == icon_of(level).1,
{
    match level {
        AnnotationLevel::Failure => ("dialog-error-symbolic", "error"),
        AnnotationLevel::Warning => ("dialog-warning-symbolic", "warning"),
        AnnotationLevel::Notice => ("dialog-information-symbolic", "accent"),
    }
}

/// The icon of an annotation level, and its colour class.
pub open spec fn icon_of(level: AnnotationLevel) -> (Seq<char>, Seq<char>) {
    match level {
        AnnotationLevel::Failure => ("dialog-error-symbolic"@, "error"@),
        AnnotationLevel::Warning => ("dialog-warning-symbolic"@, "warning"@),
        AnnotationLevel::Notice => ("dialog-information-symbolic"@, "accent"@),
    }
}

/// What the page is made for.
#[derive(Debug)]
pub struct RunDetailInit {
    pub run: WorkflowRun,
}

/// What the page is told.
#[derive(Debug)]
pub enum RunDetailInput {
    /// Fresh run data plus a trigger to re-fetch its jobs.
    Refresh(Box<WorkflowRun>),
    /// A job's row was expanded or collapsed.
    Expanded { row: usize, expanded: bool },
}

/// What the page asks for.
#[derive(Debug)]
pub enum RunDetailOutput {
    /// Open this run on github.com (the header button).
    OpenInBrowser(String),
    /// A job's "View log" was activated: open its log page.
    ShowJobLog {
        repo: String,
        job_id: u64,
        /// The job's name: the log page's title.
        job_name: String,
        /// Logs exist only for a finished job; a running one shows a
        /// placeholder.
        completed: bool,
        html_url: String,
    },
}

/// What comes back from the page's requests.
#[derive(Debug)]
pub enum RunDetailCmd {
    JobsLoaded(Box<Result<Vec<Job>, String>>),
    /// A run's annotations, fetched after the jobs settle.
    AnnotationsLoaded(Vec<Annotation>),
}

/// Whether the jobs are there yet.
#[derive(Debug)]
pub enum JobsState {
    Loading,
    Loaded,
    Error(String),
}

/// What the jobs' state holds.
pub ghost enum JobsStateView {
    Loading,
    Loaded,
    Error(Seq<char>),
}

impl View for JobsState {
    type V = JobsStateView;

    open spec fn view(&self) -> JobsStateView {
        match *self {
            JobsState::Loading => JobsStateView::Loading,
            JobsState::Loaded => JobsStateView::Loaded,
            JobsState::Error(message) => JobsStateView::Error(message@),
        }
    }
}

/// A step's row.
#[derive(Debug)]
pub struct StepRow {
    pub title: String,
    pub subtitle: String,
    pub status: RunStatus,
    pub conclusion: Option<Conclusion>,
}

/// What a step's row holds.
pub ghost struct StepRowView {
    pub title: Seq<char>,
    pub subtitle: Seq<char>,
    pub status: RunStatus,
    pub conclusion: Option<Conclusion>,
}

impl View for StepRow {
    type V = StepRowView;

    open spec fn view(&self) -> StepRowView {
        StepRowView {
            title: self.title@,
            subtitle: self.subtitle@,
            status: self.status,
            conclusion: self.conclusion,
        }
    }
}

/// A job's expandable row.
#[derive(Debug)]
pub struct JobRow {
    pub job_id: u64,
    pub title: String,
    pub subtitle: String,
    pub status: RunStatus,
    pub conclusion: Option<Conclusion>,
    pub expanded: bool,
    pub steps: Vec<StepRow>,
}

/// What a job's row holds.
pub ghost struct JobRowView {
    pub job_id: u64,
    pub title: Seq<char>,
    pub subtitle: Seq<char>,
    pub status: RunStatus,
    pub conclusion: Option<Conclusion>,
    pub expanded: bool,
    pub steps: Seq<StepRowView>,
}

impl View for JobRow {
    type V = JobRowView;

    open spec fn view(&self) -> JobRowView {
        JobRowView {
            job_id: self.job_id,
            title: self.title@,
            subtitle: self.subtitle@,
            status: self.status,
            conclusion: self.conclusion,
            expanded: self.expanded,
            steps: self.steps@.map_values(|s: StepRow| s@),
        }
    }
}

/// What the job rows hold.
pub open spec fn job_row_views(rows: Seq<JobRow>) -> Seq<JobRowView> {
    rows.map_values(|r: JobRow| r@)
}

/// Whether a row under this title is expanded.
pub open spec fn expanded_in(rows: Seq<JobRowView>, title: Seq<char>) -> bool {
    exists|i: int| 0 <= i < rows.len() && (#[trigger] rows[i]).title == title && rows[i].expanded
}

/// The row for a step, as seen at `now`.
pub open spec fn step_row(step: types::StepView, now: Timestamp) -> StepRowView {
    StepRowView {
        title: step.name,
        subtitle: elapsed_text(step.started_at, step.completed_at, now),
        status: step.status,
        conclusion: step.conclusion,
    }
}

/// The row for a job, as seen at `now`, expanded where the old rows had its
/// name expanded.
pub open spec fn job_row(
    job: types::JobView,
    old_rows: Seq<JobRowView>,
    now: Timestamp,
) -> JobRowView {
    JobRowView {
        job_id: job.id,
        title: job.name,
        subtitle: elapsed_text(job.started_at, job.completed_at, now),
        status: job.status,
        conclusion: job.conclusion,
        expanded: expanded_in(old_rows, job.name),
        steps: job.steps.map_values(|s: types::StepView| step_row(s, now)),
    }
}

/// An annotation's row.
#[derive(Debug)]
pub struct AnnotationRow {
    pub title: String,
    pub subtitle: String,
    pub icon: &'static str,
    pub class: &'static str,
}

/// What an annotation's row holds.
pub ghost struct AnnotationRowView {
    pub title: Seq<char>,
    pub subtitle: Seq<char>,
    pub icon: Seq<char>,
    pub class: Seq<char>,
}

impl View for AnnotationRow {
    type V = AnnotationRowView;

    open spec fn view(&self) -> AnnotationRowView {
        AnnotationRowView {
            title: self.title@,
            subtitle: self.subtitle@,
            icon: self.icon@,
            class: self.class@,
        }
    }
}

/// What the annotation rows hold.
pub open spec fn annotation_row_views(rows: Seq<AnnotationRow>) -> Seq<AnnotationRowView> {
    rows.map_values(|r: AnnotationRow| r@)
}

/// The row for an annotation.
pub open spec fn annotation_row(annotation: Annotation) -> AnnotationRowView {
    AnnotationRowView {
        title: annotation.spec_headline(),
        subtitle: annotation.spec_context(),
        icon: icon_of(annotation.level).0,
        class: icon_of(annotation.level).1,
    }
}

/// Where a run's jobs are listed.
#[derive(Debug)]
pub struct JobsRequest {
    pub owner: String,
    pub name: String,
    pub run_id: u64,
}

/// Which check runs' annotations to fetch.
#[derive(Debug)]
pub struct AnnotationsRequest {
    pub owner: String,
    pub name: String,
    /// Each check run with its job's name.
    pub check_runs: Vec<(u64, String)>,
}

/// The run detail page.
#[derive(Debug)]
pub struct RunDetail {
    run: WorkflowRun,
    state: JobsState,
    /// The jobs currently shown: a refresh rebuilds only when this changes.
    jobs: Vec<Job>,
    job_rows: Vec<JobRow>,
    annotation_rows: Vec<AnnotationRow>,
}

/// What the page holds.
pub ghost struct RunDetailView {
    pub run: types::RunView,
    pub state: JobsStateView,
    pub jobs: Seq<types::JobView>,
    pub job_rows: Seq<JobRowView>,
    pub annotation_rows: Seq<AnnotationRowView>,
}

impl View for RunDetail {
    type V = RunDetailView;

    closed spec fn view(&self) -> RunDetailView {
        RunDetailView {
            run: self.run@,
            state: self.state@,
            jobs: types::job_views(self.jobs@),
            job_rows: job_row_views(self.job_rows@),
            annotation_rows: annotation_row_views(self.annotation_rows@),
        }
    }
}

impl RunDetailView {
    /// The page once the jobs came back, or could not be had. Only a real
    /// change rebuilds the rows; a failed refresh keeps what is shown, and only
    /// a failed first load becomes the error state.
    pub open spec fn with_jobs(
        self,
        result: Result<Seq<types::JobView>, Seq<char>>,
        now: Timestamp,
    ) -> RunDetailView {
        match result {
            Ok(jobs) => if jobs == self.jobs {
                RunDetailView { state: JobsStateView::Loaded, ..self }
            } else {
                RunDetailView {
                    state: JobsStateView::Loaded,
                    jobs,
                    job_rows: jobs.map_values(
                        |j: types::JobView| job_row(j, self.job_rows, now),
                    ),
                    ..self
                }
            },
            Err(message) => if self.jobs.len() == 0 {
                RunDetailView { state: JobsStateView::Error(message), ..self }
            } else {
                self
            },
        }
    }
}

/// The first line of a commit message.
pub open spec fn first_line(message: Seq<char>) -> Seq<char> {
    if text::lines_of(message).len() > 0 {
        text::lines_of(message)[0]
    } else {
        Seq::empty()
    }
}

/// The first seven bytes of a commit id, where they are whole characters; else
/// all of it.
pub open spec fn short_sha(sha: Seq<char>) -> Seq<char> {
    if is_char_boundary(encode_utf8(sha), 7) {
        decode_utf8(encode_utf8(sha).subrange(0, 7))
    } else {
        sha
    }
}

fn shorten_sha(sha: &str) -> (r: String)
    ensures
        r@ == short_sha(sha@),
{
    if sha.is_char_boundary(7) {
        let (short, _rest) = sha.split_at(7);
        proof {
            encode_utf8_decode_utf8(short@);
        }
        short.to_owned()
    } else {
        sha.to_owned()
    }
}

/// "2026-07-24 14:30 · 1m 23s" for a run, as seen at `now`: start time and
/// elapsed, up to the run's last change once it completed.
pub open spec fn started_line(run: types::RunView, now: Timestamp) -> Seq<char> {
    let end = if run.status is Completed {
        run.updated_at
    } else {
        now
    };
    time::formatted(run.created_at.secs, run.created_at.nanos, "%Y-%m-%d %H:%M"@) + " · "@
        + duration_of(time::seconds_between(run.created_at, end))
}

/// Put a run's start time and elapsed time together.
pub fn started_from(when_started: String, run: &WorkflowRun, now: Timestamp) -> (r: String)
    requires
        run@.valid(),
        now.valid(),
    ensures
        r@ == when_started@ + " · "@ + duration_of(
            time::seconds_between(
                run@.created_at,
                if run@.status is Completed {
                    run@.updated_at
                } else {
                    now
                },
            ),
        ),
{
    let end: Timestamp = if run.status == RunStatus::Completed {
        run.updated_at
    } else {
        now
    };
    let mut out: String = when_started;
    out.append(" · ");
    let elapsed: String = format_duration(run.created_at, end);
    out.append(elapsed.as_str());
    out
}

impl RunDetail {
    /// The page for a run, its jobs still to come.
    pub fn init(init: RunDetailInit) -> (r: Self)
        ensures
            r@ == (RunDetailView {
                run: init.run@,
                state: JobsStateView::Loading,
                jobs: Seq::empty(),
                job_rows: Seq::empty(),
                annotation_rows: Seq::empty(),
            }),
    {
        let page = RunDetail {
            run: init.run,
            state: JobsState::Loading,
            jobs: Vec::new(),
            job_rows: Vec::new(),
            annotation_rows: Vec::new(),
        };
        assert(types::job_views(page.jobs@) =~= Seq::empty());
        assert(job_row_views(page.job_rows@) =~= Seq::empty());
        assert(annotation_row_views(page.annotation_rows@) =~= Seq::empty());
        page
    }

    /// The run being shown.
    pub fn run(&self) -> (r: &WorkflowRun)
        ensures
            r@ == self@.run,
    {
        &self.run
    }

    /// The job rows being shown.
    pub fn job_rows(&self) -> (r: &Vec<JobRow>)
        ensures
            job_row_views(r@) == self@.job_rows,
    {
        &self.job_rows
    }

    /// The annotation rows being shown; the group hides while there are none.
    pub fn annotation_rows(&self) -> (r: &Vec<AnnotationRow>)
        ensures
            annotation_row_views(r@) == self@.annotation_rows,
    {
        &self.annotation_rows
    }

    /// "CI #128": the page title.
    pub fn title(&self) -> (r: String)
        ensures
            r@ == run_row::run_title(self@.run),
    {
        run_row::title_of(&self.run)
    }

    /// The first line of the commit message, for the commit row's title.
    pub fn commit_title(&self) -> (r: String)
        ensures
            r@ == first_line(self@.run.commit_message),
    {
        let lines: Vec<String> = text::lines(self.run.commit_message.as_str());
        assert(text::texts(lines@).len() == lines@.len());
        if lines.len() > 0 {
            assert(text::texts(lines@)[0] == lines@[0]@);
            lines[0].clone()
        } else {
            String::new()
        }
    }

    /// "a1b2c3d · Jane Doe": short SHA and author, for the commit row subtitle.
    pub fn commit_subtitle(&self) -> (r: String)
        ensures
            r@ == short_sha(self@.run.head_sha) + " · "@ + self@.run.commit_author,
    {
        let mut out: String = shorten_sha(self.run.head_sha.as_str());
        out.append(" · ");
        out.append(self.run.commit_author.as_str());
        out
    }

    /// "2026-07-24 14:30 · 1m 23s", as seen at `now`: start time and elapsed.
    pub fn started_text_at(&self, now: Timestamp) -> (r: String)
        requires
            self@.run.valid(),
            now.valid(),
        ensures
            r@ == started_line(self@.run, now),
    {
        let start: String = time::format_time(self.run.created_at, "%Y-%m-%d %H:%M");
        started_from(start, &self.run, now)
    }

    /// "2026-07-24 14:30 · 1m 23s": start time and elapsed. The clock decides
    /// which reading of [`started_line`] comes back, unless the run completed.
    pub fn started_text(&self) -> (r: String)
        requires
            self@.run.valid(),
        ensures
            exists|now: Timestamp|
                now.on_the_clock() && r@ == #[trigger] started_line(self@.run, now),
    {
        let now: Timestamp = time::now();
        self.started_text_at(now)
    }

    /// Which page of the jobs stack to show.
    pub fn jobs_page(&self) -> (r: &'static str)
        ensures
            r@ == match self@.state {
                JobsStateView::Loading => "loading"@,
                JobsStateView::Loaded => "jobs"@,
                JobsStateView::Error(_) => "error"@,
            },
    {
        match self.state {
            JobsState::Loading => "loading",
            JobsState::Loaded => "jobs",
            JobsState::Error(_) => "error",
        }
    }

    /// Why the jobs could not be loaded; empty otherwise.
    pub fn error(&self) -> (r: String)
        ensures
            r@ == match self@.state {
                JobsStateView::Error(message) => message,
                _ => Seq::empty(),
            },
    {
        match &self.state {
            JobsState::Error(message) => message.clone(),
            _ => String::new(),
        }
    }

    /// Where to fetch this run's jobs, or the complaint that its repo is no
    /// `owner/name`.
    pub fn fetch_jobs(&self) -> (r: Result<JobsRequest, String>)
        ensures
            match (r, client::name_parts(self@.run.repo)) {
                (Ok(request), Ok((owner, name))) => request.owner@ == owner && request.name@ == name
                    && request.run_id == self@.run.id,
                (Err(complaint), Err(message)) => complaint@ == message,
                _ => false,
            },
    {
        match client::split_name(self.run.repo.as_str()) {
            Ok((owner, name)) => Ok(JobsRequest { owner, name, run_id: self.run.id }),
            Err(complaint) => Err(complaint),
        }
    }

    /// Which annotations to fetch for the jobs being shown; `None` where the
    /// run's repo is no `owner/name`.
    pub fn fetch_annotations(&self) -> (r: Option<AnnotationsRequest>)
        ensures
            match (r, client::name_parts(self@.run.repo)) {
                (Some(request), Ok((owner, name))) => request.owner@ == owner && request.name@
                    == name && request.check_runs@.map_values(|t: (u64, String)| (t.0, t.1@))
                    == client::annotated(self@.jobs),
                (None, Err(_)) => true,
                _ => false,
            },
    {
        match client::split_name(self.run.repo.as_str()) {
            Ok((owner, name)) => Some(
                AnnotationsRequest {
                    owner,
                    name,
                    check_runs: client::annotation_targets(&self.jobs),
                },
            ),
            Err(_) => None,
        }
    }

    /// Fill the annotation rows. Rebuilt whole each time.
    pub fn populate_annotations(&mut self, annotations: &Vec<Annotation>)
        ensures
            final(self)@ == (RunDetailView {
                annotation_rows: annotations@.map_values(|a: Annotation| annotation_row(a)),
                ..old(self)@
            }),
    {
        let mut rows: Vec<AnnotationRow> = Vec::new();
        let ghost row_of = |a: Annotation| annotation_row(a);
        let mut i: usize = 0;
        assert(annotation_row_views(rows@) =~= annotations@.take(0).map_values(row_of));
        while i < annotations.len()
            invariant
                i <= annotations@.len(),
                row_of == (|a: Annotation| annotation_row(a)),
                annotation_row_views(rows@) == annotations@.take(i as int).map_values(row_of),
            decreases annotations@.len() - i,
        {
            let annotation: &Annotation = &annotations[i];
            let (icon, class) = annotation_icon(annotation.level);
            let row = AnnotationRow {
                title: annotation.headline().to_owned(),
                subtitle: annotation.context(),
                icon,
                class,
            };
            let ghost before = rows@;
            rows.push(row);
            i += 1;
            assert(annotation_row_views(rows@) =~= annotation_row_views(before).push(row@));
            assert(annotation_row_views(rows@) =~= annotations@.take(i as int).map_values(row_of));
        }
        assert(annotations@.take(i as int) =~= annotations@);
        self.annotation_rows = rows;
    }

    /// Whether a row under this title is expanded.
    fn is_expanded(&self, title: &str) -> (r: bool)
        ensures
            r == expanded_in(self@.job_rows, title@),
    {
        let mut i: usize = 0;
        while i < self.job_rows.len()
            invariant
                i <= self.job_rows@.len(),
                forall|j: int|
                    0 <= j < i ==> !((#[trigger] self@.job_rows[j]).title == title@
                        && self@.job_rows[j].expanded),
            decreases self.job_rows@.len() - i,
        {
            assert(self@.job_rows[i as int] == self.job_rows@[i as int]@);
            if self.job_rows[i].expanded && text::same_text(
                self.job_rows[i].title.as_str(),
                title,
            ) {
                return true;
            }
            i += 1;
        }
        false
    }

    /// Rebuild the job rows: one expandable row per job, each expanding to its
    /// steps. What was expanded stays expanded, by job name, so watching a
    /// job's steps isn't interrupted.
    pub fn populate_jobs(&mut self, jobs: &Vec<Job>, now: Timestamp)
        requires
            forall|i: int| 0 <= i < jobs@.len() ==> (#[trigger] jobs@[i]).valid(),
            now.valid(),
        ensures
            final(self)@ == (RunDetailView {
                job_rows: types::job_views(jobs@).map_values(
                    |j: types::JobView| job_row(j, old(self)@.job_rows, now),
                ),
                ..old(self)@
            }),
    {
        let mut rows: Vec<JobRow> = Vec::new();
        let ghost before = self@.job_rows;
        let ghost views = types::job_views(jobs@);
        let ghost row_of = |j: types::JobView| job_row(j, before, now);
        let mut i: usize = 0;
        assert(job_row_views(rows@) =~= views.take(0).map_values(row_of));
        while i < jobs.len()
            invariant
                i <= jobs@.len(),
                now.valid(),
                forall|k: int| 0 <= k < jobs@.len() ==> (#[trigger] jobs@[k]).valid(),
                views == types::job_views(jobs@),
                before == self@.job_rows,
                *self == *old(self),
                row_of == (|j: types::JobView| job_row(j, before, now)),
                job_row_views(rows@) == views.take(i as int).map_values(row_of),
            decreases jobs@.len() - i,
        {
            let job: &Job = &jobs[i];
            assert(job.valid());
            let row = JobRow {
                job_id: job.id,
                title: job.name.clone(),
                subtitle: job_duration(job, now),
                status: job.status,
                conclusion: job.conclusion,
                expanded: self.is_expanded(job.name.as_str()),
                steps: step_rows(&job.steps, now),
            };
            let ghost earlier = rows@;
            rows.push(row);
            assert(views[i as int] == jobs@[i as int]@);
            assert(row@ == row_of(views[i as int]));
            i += 1;
            assert(job_row_views(rows@) =~= job_row_views(earlier).push(row@));
            assert(job_row_views(rows@) =~= views.take(i as int).map_values(row_of));
        }
        assert(views.take(i as int) =~= views);
        self.job_rows = rows;
    }

    /// Take fresh run data, or note that a row was expanded or collapsed.
    /// Fresh data wants the jobs fetched again: the answer says so.
    pub fn update(&mut self, msg: RunDetailInput) -> (r: bool)
        ensures
            match msg {
                RunDetailInput::Refresh(run) => {
                    &&& r
                    &&& final(self)@ == (RunDetailView { run: run@, ..old(self)@ })
                },
                RunDetailInput::Expanded { row, expanded } => {
                    &&& !r
                    &&& final(self)@ == if row < old(self)@.job_rows.len() {
                        RunDetailView {
                            job_rows: old(self)@.job_rows.update(
                                row as int,
                                JobRowView { expanded, ..old(self)@.job_rows[row as int] },
                            ),
                            ..old(self)@
                        }
                    } else {
                        old(self)@
                    }
                },
            },
    {
        match msg {
            RunDetailInput::Refresh(run) => {
                self.run = *run;
                true
            },
            RunDetailInput::Expanded { row, expanded } => {
                if row < self.job_rows.len() {
                    let ghost before = self.job_rows@;
                    self.job_rows[row].expanded = expanded;
                    proof {
                        let changed = JobRowView { expanded, ..before[row as int]@ };
                        assert(self.job_rows@[row as int]@ == changed);
                        assert(job_row_views(self.job_rows@) =~= job_row_views(before).update(
                            row as int,
                            changed,
                        ));
                    }
                }
                false
            },
        }
    }

    /// Take what came back. Jobs that changed want their annotations fetched:
    /// the answer says so.
    pub fn update_cmd(&mut self, msg: RunDetailCmd, now: Timestamp) -> (r: bool)
        requires
            msg matches RunDetailCmd::JobsLoaded(result) ==> valid_load(*result),
            now.valid(),
        ensures
            match msg {
                RunDetailCmd::JobsLoaded(result) => {
                    &&& final(self)@ == old(self)@.with_jobs(loaded_view(*result), now)
                    &&& r == (loaded_view(*result) matches Ok(jobs) && jobs != old(self)@.jobs)
                },
                RunDetailCmd::AnnotationsLoaded(annotations) => {
                    &&& !r
                    &&& final(self)@ == (RunDetailView {
                        annotation_rows: annotations@.map_values(
                            |a: Annotation| annotation_row(a),
                        ),
                        ..old(self)@
                    })
                },
            },
    {
        match msg {
            RunDetailCmd::JobsLoaded(result) => match *result {
                Ok(jobs) => {
                    let changed: bool = !types::same_jobs(&jobs, &self.jobs);
                    if changed {
                        self.populate_jobs(&jobs, now);
                        self.jobs = jobs;
                    }
                    self.state = JobsState::Loaded;
                    changed
                },
                Err(message) => {
                    assert(types::job_views(self.jobs@).len() == self.jobs@.len());
                    if self.jobs.len() == 0 {
                        self.state = JobsState::Error(message);
                    }
                    false
                },
            },
            RunDetailCmd::AnnotationsLoaded(annotations) => {
                self.populate_annotations(&annotations);
                false
            },
        }
    }

    /// What a job's "View log" button asks for.
    pub fn show_log(&self, job: usize) -> (r: Option<RunDetailOutput>)
        ensures
            match r {
                Some(output) => job < self@.job_rows.len() && shows_log(
                    output,
                    self@.run,
                    self@.job_rows[job as int],
                ),
                None => job >= self@.job_rows.len(),
            },
    {
        if job >= self.job_rows.len() {
            return None;
        }
        let row: &JobRow = &self.job_rows[job];
        assert(self@.job_rows[job as int] == row@);
        Some(
            RunDetailOutput::ShowJobLog {
                repo: self.run.repo.clone(),
                job_id: row.job_id,
                job_name: row.title.clone(),
                completed: row.status == RunStatus::Completed,
                html_url: self.run.html_url.clone(),
            },
        )
    }

    /// What the header's browser button asks for.
    pub fn browser_clicked(&self) -> (r: RunDetailOutput)
        ensures
            r matches RunDetailOutput::OpenInBrowser(url) && url@ == self@.run.html_url,
    {
        RunDetailOutput::OpenInBrowser(self.run.html_url.clone())
    }
}

/// Whether an output opens the log page of a job's row.
pub open spec fn shows_log(output: RunDetailOutput, run: types::RunView, row: JobRowView) -> bool {
    match output {
        RunDetailOutput::ShowJobLog { repo, job_id, job_name, completed, html_url } => {
            &&& repo@ == run.repo
            &&& job_id == row.job_id
            &&& job_name@ == row.title
            &&& completed == (row.status is Completed)
            &&& html_url@ == run.html_url
        },
        _ => false,
    }
}

/// Whether the times in fetched jobs are instants of the calendar.
pub open spec fn valid_load(result: Result<Vec<Job>, String>) -> bool {
    match result {
        Ok(jobs) => forall|i: int| 0 <= i < jobs@.len() ==> (#[trigger] jobs@[i]).valid(),
        Err(_) => true,
    }
}

/// The view of fetched jobs.
pub open spec fn loaded_view(result: Result<Vec<Job>, String>) -> Result<
    Seq<types::JobView>,
    Seq<char>,
> {
    match result {
        Ok(jobs) => Ok(types::job_views(jobs@)),
        Err(message) => Err(message@),
    }
}

/// The rows for a job's steps, as seen at `now`.
fn step_rows(steps: &Vec<Step>, now: Timestamp) -> (r: Vec<StepRow>)
    requires
        forall|i: int| 0 <= i < steps@.len() ==> (#[trigger] steps@[i]).valid(),
        now.valid(),
    ensures
        r@.map_values(|s: StepRow| s@) == types::step_views(steps@).map_values(
            |s: types::StepView| step_row(s, now),
        ),
{
    let mut rows: Vec<StepRow> = Vec::new();
    let ghost view_of = |s: StepRow| s@;
    let ghost row_of = |s: types::StepView| step_row(s, now);
    let ghost views = types::step_views(steps@);
    let mut i: usize = 0;
    assert(rows@.map_values(view_of) =~= views.take(0).map_values(row_of));
    while i < steps.len()
        invariant
            i <= steps@.len(),
            now.valid(),
            forall|k: int| 0 <= k < steps@.len() ==> (#[trigger] steps@[k]).valid(),
            view_of == (|s: StepRow| s@),
            row_of == (|s: types::StepView| step_row(s, now)),
            views == types::step_views(steps@),
            rows@.map_values(view_of) == views.take(i as int).map_values(row_of),
        decreases steps@.len() - i,
    {
        let step: &Step = &steps[i];
        assert(step.valid());
        let row = StepRow {
            title: step.name.clone(),
            subtitle: step_duration(step, now),
            status: step.status,
            conclusion: step.conclusion,
        };
        let ghost before = rows@;
        rows.push(row);
        assert(views[i as int] == steps@[i as int]@);
        i += 1;
        assert(rows@.map_values(view_of) =~= before.map_values(view_of).push(row@));
        assert(rows@.map_values(view_of) =~= views.take(i as int).map_values(row_of));
    }
    assert(views.take(i as int) =~= views);
    rows
}

/// A failed refresh keeps what is shown: once jobs are there, no failure
/// changes the page.
pub proof fn law_failed_refresh_keeps_jobs(
    page: RunDetailView,
    message: Seq<char>,
    now: Timestamp,
)
    requires
        page.jobs.len() > 0,
    ensures
        page.with_jobs(Err(message), now) == page,
{
}

/// An unchanged refresh rebuilds nothing: the rows stay as they are, expanded
/// ones expanded.
pub proof fn law_unchanged_refresh_keeps_rows(page: RunDetailView, now: Timestamp)
    ensures
        page.with_jobs(Ok(page.jobs), now).job_rows == page.job_rows,
        page.with_jobs(Ok(page.jobs), now).annotation_rows == page.annotation_rows,
{
}

/// A rebuild keeps what was expanded: a job whose name had an expanded row has
/// one again, and no other job does.
pub proof fn law_rebuild_keeps_expanded(
    page: RunDetailView,
    jobs: Seq<types::JobView>,
    now: Timestamp,
    i: int,
)
    requires
        0 <= i < jobs.len(),
        jobs != page.jobs,
    ensures
        page.with_jobs(Ok(jobs), now).job_rows[i].title == jobs[i].name,
        page.with_jobs(Ok(jobs), now).job_rows[i].expanded == expanded_in(
            page.job_rows,
            jobs[i].name,
        ),
{
}

/// An ASCII commit id of at least seven characters is shortened to seven.
pub proof fn law_short_sha_is_seven(sha: Seq<char>)
    requires
        is_ascii_chars(sha),
        sha.len() >= 7,
    ensures
        short_sha(sha) == sha.take(7),
{
    let bytes = encode_utf8(sha);
    is_ascii_chars_encode_utf8(sha);
    encode_utf8_valid_utf8(sha);
    if sha.len() == 7 {
        is_char_boundary_start_end_of_seq(bytes);
        assert(bytes.subrange(0, 7) =~= bytes);
        encode_utf8_decode_utf8(sha);
        assert(sha.take(7) =~= sha);
    } else {
        is_char_boundary_iff_not_is_continuation_byte(bytes, 7);
        assert(sha[7] as u8 == bytes[7]);
        let head = sha.take(7);
        assert forall|i: int| 0 <= i < head.len() implies '\0' <= #[trigger] head[i]
            <= '\u{7f}' by {
            assert(head[i] == sha[i]);
        }
        is_ascii_chars_encode_utf8(head);
        assert forall|i: int| 0 <= i < 7 implies encode_utf8(head)[i] == bytes[i] by {
            assert(head[i] as u8 == encode_utf8(head)[i]);
            assert(sha[i] as u8 == bytes[i]);
        }
        assert(encode_utf8(head) =~= bytes.subrange(0, 7));
        encode_utf8_decode_utf8(head);
    }
}

/// A span is told in seconds up to a minute, then in minutes and the seconds
/// over, which are left out where there are none; a negative one is none.
pub proof fn law_duration_in_minutes_and_seconds(minutes: int, rest: int)
    requires
        minutes >= 0,
        0 <= rest < 60,
    ensures
        duration_of(rest) == text::decimal(rest as nat) + "s"@,
        minutes > 0 && rest == 0 ==> duration_of(60 * minutes) == text::decimal(minutes as nat)
            + "m"@,
        minutes > 0 && rest > 0 ==> duration_of(60 * minutes + rest) == text::decimal(
            minutes as nat,
        ) + "m "@ + text::decimal(rest as nat) + "s"@,
        duration_of(-1 - minutes) == text::decimal(0) + "s"@,
{
    assert((60 * minutes + rest) / 60 == minutes && (60 * minutes + rest) % 60 == rest);
    assert((60 * minutes) / 60 == minutes && (60 * minutes) % 60 == 0);
}

/// What is over took from its start to its end, what runs has taken until now
/// and says so, and what has not started says nothing.
pub proof fn law_elapsed_until_its_end(
    start: Timestamp,
    end: Timestamp,
    completed: Option<Timestamp>,
    now: Timestamp,
)
    ensures
        elapsed_text(Some(start), Some(end), now) == duration_of(time::seconds_between(start, end)),
        elapsed_text(Some(start), None, now) == "running · "@ + duration_of(
            time::seconds_between(start, now),
        ),
        elapsed_text(None, completed, now).len() == 0,
{
}

/// A run's time runs up to its last change once it completed, and until now
/// before.
pub proof fn law_run_time_stops_at_completion(
    run: types::RunView,
    now: Timestamp,
    later: Timestamp,
)
    ensures
        run.status == RunStatus::Completed ==> started_line(run, now) == started_line(run, later)
            && started_line(run, now) == time::formatted(
            run.created_at.secs,
            run.created_at.nanos,
            "%Y-%m-%d %H:%M"@,
        ) + " · "@ + duration_of(time::seconds_between(run.created_at, run.updated_at)),
        run.status != RunStatus::Completed ==> started_line(run, now) == time::formatted(
            run.created_at.secs,
            run.created_at.nanos,
            "%Y-%m-%d %H:%M"@,
        ) + " · "@ + duration_of(time::seconds_between(run.created_at, now)),
{
}

/// A job's row and its steps' rows say what the job and its steps are, each
/// value in its own place, step for step.
pub proof fn law_rows_say_what_the_jobs_are(
    page: RunDetailView,
    jobs: Seq<types::JobView>,
    now: Timestamp,
    i: int,
    k: int,
)
    requires
        jobs != page.jobs,
        0 <= i < jobs.len(),
    ensures
        ({
            let next = page.with_jobs(Ok(jobs), now);
            let row = next.job_rows[i];
            let job = jobs[i];
            &&& next.state is Loaded && next.jobs == jobs && next.run == page.run
            &&& next.job_rows.len() == jobs.len()
            &&& row.job_id == job.id && row.title == job.name
            &&& row.status == job.status && row.conclusion == job.conclusion
            &&& row.subtitle == elapsed_text(job.started_at, job.completed_at, now)
            &&& row.steps.len() == job.steps.len()
            &&& 0 <= k < job.steps.len() ==> {
                let step = job.steps[k];
                &&& row.steps[k].title == step.name
                &&& row.steps[k].status == step.status
                &&& row.steps[k].conclusion == step.conclusion
                &&& row.steps[k].subtitle == elapsed_text(step.started_at, step.completed_at, now)
            }
        }),
{
}

/// A job's row is expanded again where an old row under its name was, and only
/// there.
pub proof fn law_expanded_by_name(
    job: types::JobView,
    rows: Seq<JobRowView>,
    now: Timestamp,
    i: int,
)
    ensures
        0 <= i < rows.len() && rows[i].title == job.name && rows[i].expanded ==> job_row(
            job,
            rows,
            now,
        ).expanded,
        (forall|j: int|
            0 <= j < rows.len() && (#[trigger] rows[j]).title == job.name ==> !rows[j].expanded)
            ==> !job_row(job, rows, now).expanded,
{
}

/// A first load that fails shows the reason; jobs that come in later replace
/// it.
pub proof fn law_failed_first_load_is_told(
    page: RunDetailView,
    message: Seq<char>,
    jobs: Seq<types::JobView>,
    now: Timestamp,
)
    requires
        page.jobs.len() == 0,
    ensures
        page.with_jobs(Err(message), now) == (RunDetailView {
            state: JobsStateView::Error(message),
            ..page
        }),
        page.with_jobs(Err(message), now).with_jobs(Ok(jobs), now).state is Loaded,
        page.with_jobs(Err(message), now).with_jobs(Ok(jobs), now).jobs == jobs,
{
}

/// An annotation's row has its headline and its context, and the icon and the
/// colour of its level.
pub proof fn law_annotation_rows_by_level(a: Annotation)
    ensures
        annotation_row(a).title == a.spec_headline(),
        annotation_row(a).subtitle == a.spec_context(),
        a.level is Failure ==> annotation_row(a).icon == "dialog-error-symbolic"@
            && annotation_row(a).class == "error"@,
        a.level is Warning ==> annotation_row(a).icon == "dialog-warning-symbolic"@
            && annotation_row(a).class == "warning"@,
        a.level is Notice ==> annotation_row(a).icon == "dialog-information-symbolic"@
            && annotation_row(a).class == "accent"@,
{
}

/// A commit is titled by the first line of its message: what stands before the
/// first line feed, or all of it where there is none.
pub proof fn law_commit_title_is_the_first_line(line: Seq<char>, rest: Seq<char>)
    requires
        !line.contains('\n'),
        line.len() == 0 || line.last() != '\r',
    ensures
        first_line(line.push('\n') + rest) == line,
        first_line(line) == line,
{
    text::law_first_line_first(line, rest);
    line.index_of_first_ensures('\n');
    if line.len() == 0 {
        assert(first_line(line) =~= line);
    }
}

/// A job's log is that job's, in the run's repo, there once the job completed,
/// and the browser has the run's page.
pub proof fn law_log_of_its_job(
    output: RunDetailOutput,
    run: types::RunView,
    row: JobRowView,
)
    requires
        shows_log(output, run, row),
    ensures
        output matches RunDetailOutput::ShowJobLog {
            repo,
            job_id,
            job_name,
            completed,
            html_url,
        } && repo@ == run.repo && job_id == row.job_id && job_name@ == row.title && (completed
            <==> row.status == RunStatus::Completed) && html_url@ == run.html_url,
{
}

/// A commit id shorter than seven characters is shown whole.
pub proof fn law_shorter_sha_is_whole(sha: Seq<char>)
    requires
        is_ascii_chars(sha),
        sha.len() < 7,
    ensures
        short_sha(sha) == sha,
{
    is_ascii_chars_encode_utf8(sha);
    encode_utf8_valid_utf8(sha);
}

} // verus!
