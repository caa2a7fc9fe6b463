//! The GitHub client's decisions: what to ask for, what an answer means, and
//! how a failure is told. Sending and receiving happen outside; they hand in
//! what came back.

use vstd::prelude::*;
use vstd::string::*;

use crate::github::headers;
use crate::github::job_log;
use crate::github::job_log::Section;
use crate::github::log;
use crate::github::types;
use crate::github::types::{Job, JobModel, RateLimit, Repo, RepositoryModel, RunAction, RunModel, RunStatus, WorkflowRun};
use crate::text;
use crate::time::Timestamp;

verus! {

/// The OAuth App's public client id. Device flow needs no secret, and every
/// device-flow client ships its id in the binary.
pub const CLIENT_ID: &'static str = "Ov23linyDdWA8pzgyrUQ";

/// The scope we request. `repo` covers reading Actions runs on private and
/// public repos; GitHub has no narrower one that does.
pub const SCOPE: &'static str = "repo";

/// Why a request got no usable answer.
#[derive(Debug)]
pub enum ApiFailure {
    /// A response came back carrying an HTTP error status.
    GitHub { status: u16, message: String },
    /// No response at all: the transport failed.
    Transport,
    /// Anything else, in words.
    Other(String),
}

/// Why a connection attempt failed, sorted into the cases the UI treats
/// differently: an auth failure drops you back to the sign-in; everything else
/// lands on a "disconnected" page with the reason. The message names the fix
/// where the failure tells one.
#[derive(Debug)]
pub enum ConnectError {
    /// 401: invalid or expired.
    Auth(String),
    /// The network is down, or GitHub is unreachable.
    Offline(String),
    /// 403: rate limit reached, or the token lacks access.
    RateLimited(String),
    /// Anything else, surfaced rather than swallowed.
    Other(String),
}

impl ConnectError {
    /// The message, whatever the case.
    pub open spec fn spec_message(self) -> Seq<char> {
        match self {
            ConnectError::Auth(m) => m@,
            ConnectError::Offline(m) => m@,
            ConnectError::RateLimited(m) => m@,
            ConnectError::Other(m) => m@,
        }
    }

    pub fn message(&self) -> (r: &str)
        ensures
            r@ == self.spec_message(),
    {
        match self {
            ConnectError::Auth(m) => m.as_str(),
            ConnectError::Offline(m) => m.as_str(),
            ConnectError::RateLimited(m) => m.as_str(),
            ConnectError::Other(m) => m.as_str(),
        }
    }

    /// Auth failures are the only ones that return to the sign-in.
    pub fn is_auth(&self) -> (r: bool)
        ensures
            r == (self is Auth),
    {
        match self {
            ConnectError::Auth(_) => true,
            _ => false,
        }
    }
}

/// What to tell of a refusal that has one meaning wherever it comes from: a
/// token that no longer holds, or a budget or an access that falls short.
pub open spec fn refusal(status: u16) -> Option<Seq<char>> {
    if status == 401 {
        Some(
            "GitHub rejected the token (401). It may be invalid or expired — sign in again."@,
        )
    } else if status == 403 {
        Some(
            "GitHub returned 403 — the rate limit is reached, or the token doesn't have the access it needs."@,
        )
    } else {
        None
    }
}

/// What to tell of a refusal.
fn refusal_text(status: u16) -> (r: Option<String>)
    ensures
        types::optional_text(r) == refusal(status),
{
    if status == 401 {
        Some(
            "GitHub rejected the token (401). It may be invalid or expired — sign in again.".to_owned(),
        )
    } else if status == 403 {
        Some(
            "GitHub returned 403 — the rate limit is reached, or the token doesn't have the access it needs.".to_owned(),
        )
    } else {
        None
    }
}

/// The message for a failure.
pub open spec fn failure_message(failure: ApiFailure) -> Seq<char> {
    match failure {
        ApiFailure::GitHub { status, message } => if refusal(status) is Some {
            refusal(status).unwrap()
        } else if status == 404 {
            "Not found (404) — the token may not be able to see that resource."@
        } else {
            "GitHub error "@ + text::decimal(status as nat) + ": "@ + message@
        },
        ApiFailure::Transport => "Can't reach GitHub — check your internet connection."@,
        ApiFailure::Other(reason) => "Unexpected error: "@ + reason@,
    }
}

/// Whether `error` is what [`diagnose`] makes of `failure`.
pub open spec fn diagnosed(error: ConnectError, failure: ApiFailure) -> bool {
    &&& error.spec_message() == failure_message(failure)
    &&& error is Auth == (failure matches ApiFailure::GitHub { status, .. } && status == 401)
    &&& error is RateLimited == (failure matches ApiFailure::GitHub { status, .. } && status
        == 403)
    &&& error is Offline == (failure is Transport)
}

/// Turn a failed request into a [`ConnectError`]: a rejected token is told to
/// sign in again, a lost network to check the connection, a spent budget and a
/// missing access as what they are.
pub fn diagnose(failure: &ApiFailure) -> (r: ConnectError)
    ensures
        diagnosed(r, *failure),
{
    match failure {
        ApiFailure::GitHub { status, message } => if let Some(told) = refusal_text(*status) {
            if *status == 401 {
                ConnectError::Auth(told)
            } else {
                ConnectError::RateLimited(told)
            }
        } else if *status == 404 {
            ConnectError::Other(
                "Not found (404) — the token may not be able to see that resource.".to_owned(),
            )
        } else {
            let mut told: String = "GitHub error ".to_owned();
            let code: String = text::number(*status as u64);
            told.append(code.as_str());
            told.append(": ");
            told.append(message.as_str());
            ConnectError::Other(told)
        },
        ApiFailure::Transport => ConnectError::Offline(
            "Can't reach GitHub — check your internet connection.".to_owned(),
        ),
        ApiFailure::Other(reason) => {
            let mut told: String = "Unexpected error: ".to_owned();
            told.append(reason.as_str());
            ConnectError::Other(told)
        },
    }
}

/// The message of a failed request.
pub fn failure_text(failure: &ApiFailure) -> (r: String)
    ensures
        r@ == failure_message(*failure),
{
    let error: ConnectError = diagnose(failure);
    error.message().to_owned()
}

/// A live, verified connection to GitHub: who it authenticated as, and how
/// much rate budget is left.
#[derive(Debug)]
pub struct Connection {
    pub login: String,
    pub rate: RateLimit,
}

impl Clone for Connection {
    fn clone(&self) -> (r: Self)
        ensures
            r == *self,
    {
        Connection { login: self.login.clone(), rate: self.rate }
    }
}

/// The core budget, as the rate-limit endpoint reports it.
#[derive(Debug, Clone, Copy, PartialEq, Eq, Structural)]
pub struct CoreLimits {
    pub remaining: u64,
    pub limit: u64,
    /// Seconds since the epoch.
    pub reset: u64,
}

/// What came back while connecting.
#[derive(Debug)]
pub enum ConnectEvent {
    /// A client was built for the token, or refused.
    Built(Result<(), ApiFailure>),
    /// Who the token belongs to.
    User(Result<String, ApiFailure>),
    /// The budget, asked for once the login is known.
    Limits { login: String, core: Result<CoreLimits, ApiFailure> },
}

/// What to do next while connecting.
#[derive(Debug)]
pub enum ConnectStep {
    /// Ask who the token belongs to.
    AskUser,
    /// Ask for the rate limit.
    AskLimits { login: String },
    /// Done: connected, or why not.
    Finished(Result<Connection, ConnectError>),
}

/// The budget that a report of the core limits stands for.
pub open spec fn core_rate(core: CoreLimits) -> RateLimit {
    RateLimit {
        remaining: core.remaining,
        limit: core.limit,
        reset: headers::reset_at(Some(core.reset)),
    }
}

/// Prove a token works before believing in it: build a client, ask who it
/// belongs to, read the rate limit. The first failure ends it.
pub fn connect(event: ConnectEvent) -> (r: ConnectStep)
    ensures
        match event {
            ConnectEvent::Built(Ok(_)) => r is AskUser,
            ConnectEvent::User(Ok(login)) => r == (ConnectStep::AskLimits { login }),
            ConnectEvent::Limits { login, core: Ok(core) } => r == ConnectStep::Finished(
                Ok(Connection { login, rate: core_rate(core) }),
            ) && core_rate(core).valid(),
            ConnectEvent::Built(Err(failure)) => refused(r, failure),
            ConnectEvent::User(Err(failure)) => refused(r, failure),
            ConnectEvent::Limits { core: Err(failure), .. } => refused(r, failure),
        },
{
    match event {
        ConnectEvent::Built(Ok(_)) => ConnectStep::AskUser,
        ConnectEvent::Built(Err(failure)) => ConnectStep::Finished(Err(diagnose(&failure))),
        ConnectEvent::User(Ok(login)) => ConnectStep::AskLimits { login },
        ConnectEvent::User(Err(failure)) => ConnectStep::Finished(Err(diagnose(&failure))),
        ConnectEvent::Limits { login, core } => match core {
            Ok(core) => {
                let reset: Option<Timestamp> = headers::reset_time(core.reset);
                ConnectStep::Finished(
                    Ok(
                        Connection {
                            login,
                            rate: RateLimit {
                                remaining: core.remaining,
                                limit: core.limit,
                                reset,
                            },
                        },
                    ),
                )
            },
            Err(failure) => ConnectStep::Finished(Err(diagnose(&failure))),
        },
    }
}

/// Whether a connecting step ends with a failure's diagnosis.
pub open spec fn refused(step: ConnectStep, failure: ApiFailure) -> bool {
    match step {
        ConnectStep::Finished(Err(error)) => diagnosed(error, failure),
        _ => false,
    }
}

/// The repositories that can be watched among the models: those with an owner,
/// in the order they came in.
pub open spec fn watchable(models: Seq<RepositoryModel>) -> Seq<Repo>
    decreases models.len(),
{
    if models.len() == 0 {
        Seq::empty()
    } else {
        let rest = watchable(models.drop_last());
        match types::narrowed_repo(models.last()) {
            Some(repo) => rest.push(repo),
            None => rest,
        }
    }
}

/// The repositories the token can watch, out of what all the pages listed.
pub fn list_repos(pages: Result<Vec<RepositoryModel>, ApiFailure>) -> (r: Result<
    Vec<Repo>,
    ConnectError,
>)
    ensures
        match (pages, r) {
            (Ok(models), Ok(repos)) => repos@ == watchable(models@),
            (Err(failure), Err(error)) => diagnosed(error, failure),
            _ => false,
        },
{
    match pages {
        Ok(models) => {
            let mut repos: Vec<Repo> = Vec::new();
            for model in it: models
                invariant
                    it.seq() == models@,
                    repos@ == watchable(models@.take(it.index() as int)),
            {
                assert(models@.take(it.index() as int + 1).drop_last() =~= models@.take(
                    it.index() as int,
                ));
                if let Some(repo) = Repo::from_model(model) {
                    repos.push(repo);
                }
            }
            assert(models@.take(models@.len() as int) =~= models@);
            Ok(repos)
        },
        Err(failure) => Err(diagnose(&failure)),
    }
}

/// The outcome of polling one repo's runs.
#[derive(Debug)]
pub enum RunsOutcome {
    /// New data (HTTP 200): the runs, plus the ETag to send next time.
    Fresh { etag: Option<String>, runs: Vec<WorkflowRun> },
    /// 304 Not Modified: nothing changed, and it did not cost a request against
    /// the rate limit. This is what makes idle repos free to poll.
    NotModified,
    /// The request failed (404, offline, …). The message names the fix where
    /// the failure tells one: a rejected token, a repo out of sight, no network.
    Failed(String),
}

/// What a poll's outcome holds, its texts as characters.
pub ghost enum OutcomeView {
    Fresh { etag: Option<Seq<char>>, runs: Seq<types::RunView> },
    NotModified,
    Failed(Seq<char>),
}

impl View for RunsOutcome {
    type V = OutcomeView;

    open spec fn view(&self) -> OutcomeView {
        match *self {
            RunsOutcome::Fresh { etag, runs } => OutcomeView::Fresh {
                etag: types::optional_text(etag),
                runs: types::run_views(runs@),
            },
            RunsOutcome::NotModified => OutcomeView::NotModified,
            RunsOutcome::Failed(message) => OutcomeView::Failed(message@),
        }
    }
}

/// One repo's slot in a poll.
#[derive(Debug)]
pub struct RepoRuns {
    pub repo: String,
    pub outcome: RunsOutcome,
}

/// What a repo's slot holds.
pub ghost struct RepoRunsView {
    pub repo: Seq<char>,
    pub outcome: OutcomeView,
}

impl View for RepoRuns {
    type V = RepoRunsView;

    open spec fn view(&self) -> RepoRunsView {
        RepoRunsView { repo: self.repo@, outcome: self.outcome@ }
    }
}

/// What a list of slots holds.
pub open spec fn slot_views(slots: Seq<RepoRuns>) -> Seq<RepoRunsView> {
    slots.map_values(|s: RepoRuns| s@)
}

/// The result of one poll across the watched repos.
#[derive(Debug)]
pub struct Poll {
    pub repos: Vec<RepoRuns>,
    /// The budget after the last response that carried the `X-RateLimit-*`
    /// headers (they ride on 304s and errors too).
    pub rate: Option<RateLimit>,
}

/// A repo to poll, with the ETag stored for it.
#[derive(Debug)]
pub struct PollTarget {
    pub repo: String,
    pub etag: Option<String>,
}

/// What a repo to poll holds.
pub ghost struct TargetView {
    pub repo: Seq<char>,
    pub etag: Option<Seq<char>>,
}

impl View for PollTarget {
    type V = TargetView;

    open spec fn view(&self) -> TargetView {
        TargetView { repo: self.repo@, etag: types::optional_text(self.etag) }
    }
}

/// What a list of repos to poll holds.
pub open spec fn target_views(targets: Seq<PollTarget>) -> Seq<TargetView> {
    targets.map_values(|t: PollTarget| t@)
}

/// The complaint about a repo that is no `owner/name`.
pub open spec fn not_a_name(repo: Seq<char>) -> Seq<char> {
    "“"@ + repo + "” isn't a valid owner/name"@
}

/// A repo's owner and name, or the complaint that it is no `owner/name`.
pub open spec fn name_parts(repo: Seq<char>) -> Result<(Seq<char>, Seq<char>), Seq<char>> {
    match text::cut_first(repo, '/') {
        Some(parts) => Ok(parts),
        None => Err(not_a_name(repo)),
    }
}

/// The views of a repo's owner and name.
pub open spec fn parts_view(parts: Result<(String, String), String>) -> Result<
    (Seq<char>, Seq<char>),
    Seq<char>,
> {
    match parts {
        Ok((owner, name)) => Ok((owner@, name@)),
        Err(complaint) => Err(complaint@),
    }
}

/// Cut a repo's full name into owner and name.
pub fn split_name(repo: &str) -> (r: Result<(String, String), String>)
    ensures
        parts_view(r) == name_parts(repo@),
{
    match text::split_once(repo, '/') {
        Some(parts) => Ok(parts),
        None => {
            let mut complaint: String = "“".to_owned();
            complaint.append(repo);
            complaint.append("” isn't a valid owner/name");
            Err(complaint)
        },
    }
}

/// One repo's conditional runs request.
#[derive(Debug)]
pub struct RunsRequest {
    pub owner: String,
    pub name: String,
    pub uri: String,
    pub headers: http::HeaderMap,
}

/// Where a repo's newest runs are listed.
pub open spec fn runs_uri(owner: Seq<char>, name: Seq<char>) -> Seq<char> {
    "/repos/"@ + owner + "/"@ + name + "/actions/runs?per_page=20"@
}

/// Whether `request` asks for the target's runs, conditionally.
pub open spec fn asks_for(request: RunsRequest, target: TargetView) -> bool {
    match name_parts(target.repo) {
        Ok((owner, name)) => {
            &&& request.owner@ == owner
            &&& request.name@ == name
            &&& request.uri@ == runs_uri(owner, name)
            &&& headers::header_values(request.headers) == headers::conditional_headers(target.etag)
        },
        Err(_) => false,
    }
}

/// What came back for a runs request.
#[derive(Debug)]
pub struct RunsReply {
    pub status: u16,
    pub headers: http::HeaderMap,
    /// The page of runs, read where the status is 200; unused otherwise.
    pub runs: Result<Vec<RunModel>, ApiFailure>,
}

/// What to tell of a runs reply with neither runs nor "not modified": a repo
/// that is not there may be misspelt, or out of the account's sight.
pub open spec fn status_message(status: u16, repo: Seq<char>) -> Seq<char> {
    if refusal(status) is Some {
        refusal(status).unwrap()
    } else if status == 404 {
        "Not found (404) — check that "@ + repo + " exists and that your account has access to it."@
    } else {
        "GitHub returned HTTP "@ + text::decimal(status as nat) + " for "@ + repo
    }
}

/// What to tell of a runs reply with neither runs nor "not modified".
fn status_text(status: u16, repo: &str) -> (r: String)
    ensures
        r@ == status_message(status, repo@),
{
    match refusal_text(status) {
        Some(told) => told,
        None => if status == 404 {
            let mut told: String = "Not found (404) — check that ".to_owned();
            told.append(repo);
            told.append(" exists and that your account has access to it.");
            told
        } else {
            let mut told: String = "GitHub returned HTTP ".to_owned();
            let code: String = text::number(status as u64);
            told.append(code.as_str());
            told.append(" for ");
            told.append(repo);
            told
        },
    }
}

/// What a runs reply means: the outcome and the budget it carried, or the
/// message of a failure.
pub open spec fn judged(repo: Seq<char>, reply: Result<RunsReply, ApiFailure>) -> Result<
    (OutcomeView, Option<RateLimit>),
    Seq<char>,
> {
    match reply {
        Err(failure) => Err(failure_message(failure)),
        Ok(reply) => {
            let values = headers::header_values(reply.headers);
            if reply.status == 304 {
                Ok((OutcomeView::NotModified, headers::rate_of(values)))
            } else if reply.status == 200 {
                match reply.runs {
                    Ok(models) => Ok(
                        (
                            OutcomeView::Fresh {
                                etag: headers::etag_of(values),
                                runs: models@.map_values(
                                    |m: RunModel| types::narrowed_run(m, repo),
                                ),
                            },
                            headers::rate_of(values),
                        ),
                    ),
                    Err(failure) => Err(failure_message(failure)),
                }
            } else {
                Err(status_message(reply.status, repo))
            }
        },
    }
}

/// The outcome that a judged reply fills a slot with.
pub open spec fn outcome_of(
    judgement: Result<(OutcomeView, Option<RateLimit>), Seq<char>>,
) -> OutcomeView {
    match judgement {
        Ok((outcome, _)) => outcome,
        Err(message) => OutcomeView::Failed(message),
    }
}

/// The budget that a reply carried, whatever its status.
pub open spec fn carried(reply: Result<RunsReply, ApiFailure>) -> Option<RateLimit> {
    match reply {
        Ok(reply) => headers::rate_of(headers::header_values(reply.headers)),
        Err(_) => None,
    }
}

/// The budget after a reply: the one it carried, else the one before.
pub open spec fn rate_after(
    reply: Result<RunsReply, ApiFailure>,
    before: Option<RateLimit>,
) -> Option<RateLimit> {
    match carried(reply) {
        Some(rate) => Some(rate),
        None => before,
    }
}

/// The view of a judged reply.
pub open spec fn judgement_view(
    judgement: Result<(RunsOutcome, Option<RateLimit>), String>,
) -> Result<(OutcomeView, Option<RateLimit>), Seq<char>> {
    match judgement {
        Ok((outcome, rate)) => Ok((outcome@, rate)),
        Err(message) => Err(message@),
    }
}

/// The runs that a page's models narrow to.
fn narrow_runs(models: Vec<RunModel>, repo: &str) -> (r: Vec<WorkflowRun>)
    ensures
        types::run_views(r@) == models@.map_values(|m: RunModel| types::narrowed_run(m, repo@)),
{
    let mut runs: Vec<WorkflowRun> = Vec::new();
    let ghost narrow = |m: RunModel| types::narrowed_run(m, repo@);
    for model in it: models
        invariant
            it.seq() == models@,
            narrow == (|m: RunModel| types::narrowed_run(m, repo@)),
            types::run_views(runs@) == models@.take(it.index() as int).map_values(narrow),
    {
        let run: WorkflowRun = WorkflowRun::from_model(model, repo.to_owned());
        let ghost before = runs@;
        runs.push(run);
        assert(types::run_views(runs@) =~= types::run_views(before).push(run@));
        assert(types::run_views(runs@) =~= models@.take(it.index() as int + 1).map_values(narrow));
    }
    assert(models@.take(models@.len() as int) =~= models@);
    runs
}

/// Tell what a runs reply means.
pub fn fetch_runs(repo: &str, reply: Result<RunsReply, ApiFailure>) -> (r: Result<
    (RunsOutcome, Option<RateLimit>),
    String,
>)
    ensures
        judgement_view(r) == judged(repo@, reply),
{
    match reply {
        Err(failure) => Err(failure_text(&failure)),
        Ok(reply) => {
            let rate: Option<RateLimit> = headers::read_rate(&reply.headers);
            if reply.status == 304 {
                Ok((RunsOutcome::NotModified, rate))
            } else if reply.status == 200 {
                let etag: Option<String> = headers::read_etag(&reply.headers);
                match reply.runs {
                    Ok(models) => {
                        let runs: Vec<WorkflowRun> = narrow_runs(models, repo);
                        Ok((RunsOutcome::Fresh { etag, runs }, rate))
                    },
                    Err(failure) => Err(failure_text(&failure)),
                }
            } else {
                Err(status_text(reply.status, repo))
            }
        },
    }
}

/// A poll under way: the repos to ask, and what is known of the first of them.
#[derive(Debug)]
pub struct PollRun {
    targets: Vec<PollTarget>,
    results: Vec<RepoRuns>,
    rate: Option<RateLimit>,
}

/// What a poll under way holds.
pub ghost struct PollRunView {
    pub targets: Seq<TargetView>,
    pub results: Seq<RepoRunsView>,
    pub rate: Option<RateLimit>,
}

impl View for PollRun {
    type V = PollRunView;

    closed spec fn view(&self) -> PollRunView {
        PollRunView {
            targets: target_views(self.targets@),
            results: slot_views(self.results@),
            rate: self.rate,
        }
    }
}

impl PollRunView {
    /// Every slot filled so far stands at its repo's place, and the budget is
    /// an honest one.
    pub open spec fn well_formed(self) -> bool {
        &&& self.results.len() <= self.targets.len()
        &&& forall|i: int|
            0 <= i < self.results.len() ==> (#[trigger] self.results[i]).repo
                == self.targets[i].repo
        &&& self.rate matches Some(rate) ==> rate.valid()
    }

    /// Whether the next repo to ask has a name that can be asked for.
    pub open spec fn asking(self) -> bool {
        self.results.len() < self.targets.len() && name_parts(
            self.targets[self.results.len() as int].repo,
        ) is Ok
    }

    /// The poll once every repo without a usable name, up to the next one with
    /// one, has its complaint.
    pub open spec fn advanced(self) -> PollRunView
        decreases self.targets.len() - self.results.len(),
    {
        if self.results.len() < self.targets.len() && !self.asking() {
            let repo = self.targets[self.results.len() as int].repo;
            PollRunView {
                results: self.results.push(
                    RepoRunsView { repo, outcome: OutcomeView::Failed(not_a_name(repo)) },
                ),
                ..self
            }.advanced()
        } else {
            self
        }
    }

    /// The poll after the reply to the repo being asked.
    pub open spec fn answered(self, reply: Result<RunsReply, ApiFailure>) -> PollRunView {
        let repo = self.targets[self.results.len() as int].repo;
        let judgement = judged(repo, reply);
        PollRunView {
            targets: self.targets,
            results: self.results.push(RepoRunsView { repo, outcome: outcome_of(judgement) }),
            rate: rate_after(reply, self.rate),
        }
    }
}

/// The poll's budget is that of the last reply that carried one, whatever its
/// status: a reply that carries none leaves the earlier one.
pub proof fn law_last_budget_counts(poll: PollRunView, reply: Result<RunsReply, ApiFailure>)
    ensures
        carried(reply) is Some ==> poll.answered(reply).rate == carried(reply),
        carried(reply) is None ==> poll.answered(reply).rate == poll.rate,
{
}

/// Start polling every watched repo's runs conditionally: the stored ETag goes
/// out as `If-None-Match`, so an unchanged repo answers 304, which costs
/// nothing against the rate limit.
pub fn poll_runs(targets: Vec<PollTarget>) -> (r: PollRun)
    ensures
        r@ == (PollRunView {
            targets: target_views(targets@),
            results: Seq::empty(),
            rate: None,
        }),
        r@.well_formed(),
{
    let poll = PollRun { targets, results: Vec::new(), rate: None };
    assert(slot_views(poll.results@) =~= Seq::empty());
    poll
}

impl PollRun {
    /// The next request to send, or `None` when every repo has its slot.
    pub fn next(&mut self) -> (r: Option<RunsRequest>)
        requires
            old(self)@.well_formed(),
        ensures
            final(self)@ == old(self)@.advanced(),
            final(self)@.well_formed(),
            match r {
                Some(request) => final(self)@.asking() && asks_for(
                    request,
                    final(self)@.targets[final(self)@.results.len() as int],
                ),
                None => final(self)@.results.len() == final(self)@.targets.len(),
            },
    {
        while self.results.len() < self.targets.len()
            invariant
                self@.well_formed(),
                self@.advanced() == old(self)@.advanced(),
            decreases self.targets@.len() - self.results@.len(),
        {
            let position: usize = self.results.len();
            assert(self@.targets[position as int] == self.targets@[position as int]@);
            match split_name(self.targets[position].repo.as_str()) {
                Ok((owner, name)) => {
                    let mut uri: String = "/repos/".to_owned();
                    uri.append(owner.as_str());
                    uri.append("/");
                    uri.append(name.as_str());
                    uri.append("/actions/runs?per_page=20");
                    let request_headers = match &self.targets[position].etag {
                        Some(etag) => headers::request_headers(Some(etag.as_str())),
                        None => headers::request_headers(None),
                    };
                    return Some(RunsRequest { owner, name, uri, headers: request_headers });
                },
                Err(complaint) => {
                    let ghost before = self@;
                    let slot = RepoRuns {
                        repo: self.targets[position].repo.clone(),
                        outcome: RunsOutcome::Failed(complaint),
                    };
                    self.results.push(slot);
                    assert(self@.results =~= before.results.push(slot@));
                },
            }
        }
        None
    }

    /// Take the reply to the request that [`PollRun::next`] gave.
    pub fn answer(&mut self, reply: Result<RunsReply, ApiFailure>)
        requires
            old(self)@.well_formed(),
            old(self)@.asking(),
        ensures
            final(self)@ == old(self)@.answered(reply),
            final(self)@.well_formed(),
    {
        let position: usize = self.results.len();
        assert(self@.targets[position as int] == self.targets@[position as int]@);
        let repo: String = self.targets[position].repo.clone();
        let ghost before = self@;
        // Keep the freshest budget; the headers ride on 304s and errors too.
        if let Ok(response) = &reply {
            let rate: Option<RateLimit> = headers::read_rate(&response.headers);
            if rate.is_some() {
                self.rate = rate;
            }
        }
        let outcome: RunsOutcome = match fetch_runs(repo.as_str(), reply) {
            Ok((outcome, _)) => outcome,
            Err(message) => RunsOutcome::Failed(message),
        };
        let slot = RepoRuns { repo, outcome };
        self.results.push(slot);
        assert(self@.results =~= before.results.push(slot@));
    }

    /// The finished poll.
    pub fn finish(self) -> (r: Poll)
        requires
            self@.well_formed(),
            self@.results.len() == self@.targets.len(),
        ensures
            slot_views(r.repos@) == self@.results,
            r.repos@.len() == self@.targets.len(),
            forall|i: int|
                0 <= i < r.repos@.len() ==> (#[trigger] r.repos@[i]).repo@
                    == self@.targets[i].repo,
            r.rate == self@.rate,
            r.rate matches Some(rate) ==> rate.valid(),
    {
        assert forall|i: int| 0 <= i < self.results@.len() implies (
        #[trigger] self.results@[i]).repo@ == self@.targets[i].repo by {
            assert(self@.results[i] == self.results@[i]@);
        }
        Poll { repos: self.results, rate: self.rate }
    }
}

/// List the jobs of one run, out of the page that came back.
pub fn list_jobs(page: Result<Vec<JobModel>, ApiFailure>) -> (r: Result<Vec<Job>, String>)
    ensures
        match (page, r) {
            (Ok(models), Ok(jobs)) => types::job_views(jobs@) == models@.map_values(
                |m: JobModel| types::narrowed_job(m),
            ),
            (Err(failure), Err(message)) => message@ == failure_message(failure),
            _ => false,
        },
{
    match page {
        Ok(models) => {
            let mut jobs: Vec<Job> = Vec::new();
            let ghost narrow = |m: JobModel| types::narrowed_job(m);
            for model in it: models
                invariant
                    it.seq() == models@,
                    narrow == (|m: JobModel| types::narrowed_job(m)),
                    types::job_views(jobs@) == models@.take(it.index() as int).map_values(narrow),
            {
                let job: Job = Job::from_model(model);
                let ghost before = jobs@;
                jobs.push(job);
                assert(types::job_views(jobs@) =~= types::job_views(before).push(job@));
                assert(types::job_views(jobs@) =~= models@.take(
                    it.index() as int + 1,
                ).map_values(narrow));
            }
            assert(models@.take(models@.len() as int) =~= models@);
            Ok(jobs)
        },
        Err(failure) => Err(failure_text(&failure)),
    }
}

/// Where an action on a repo's run is asked for.
pub open spec fn action_uri(
    owner: Seq<char>,
    name: Seq<char>,
    id: u64,
    action: RunAction,
) -> Seq<char> {
    "/repos/"@ + owner + "/"@ + name + "/actions/runs/"@ + text::decimal(id as nat) + match action {
        RunAction::Rerun => "/rerun"@,
        RunAction::RerunFailed => "/rerun-failed-jobs"@,
        RunAction::Cancel => "/cancel"@,
    }
}

/// Where to ask for an action on a run, or the complaint that its repo is no
/// `owner/name`.
pub fn action_request(repo: &str, id: u64, action: RunAction) -> (r: Result<String, String>)
    ensures
        log::result_text(r) == match name_parts(repo@) {
            Ok((owner, name)) => Ok(action_uri(owner, name, id, action)),
            Err(complaint) => Err(complaint),
        },
{
    let (owner, name) = match split_name(repo) {
        Ok(parts) => parts,
        Err(complaint) => {
            return Err(complaint);
        },
    };
    let mut uri: String = "/repos/".to_owned();
    uri.append(owner.as_str());
    uri.append("/");
    uri.append(name.as_str());
    uri.append("/actions/runs/");
    let digits: String = text::number(id);
    uri.append(digits.as_str());
    uri.append(
        match action {
            RunAction::Rerun => "/rerun",
            RunAction::RerunFailed => "/rerun-failed-jobs",
            RunAction::Cancel => "/cancel",
        },
    );
    Ok(uri)
}

/// The check runs whose annotations are due: those of the completed jobs, each
/// with its job's name.
pub open spec fn annotated(jobs: Seq<types::JobView>) -> Seq<(u64, Seq<char>)>
    decreases jobs.len(),
{
    if jobs.len() == 0 {
        Seq::empty()
    } else {
        let rest = annotated(jobs.drop_last());
        match jobs.last().check_run_id {
            Some(id) => if jobs.last().status is Completed {
                rest.push((id, jobs.last().name))
            } else {
                rest
            },
            None => rest,
        }
    }
}

/// The check runs whose annotations are due for these jobs.
pub fn annotation_targets(jobs: &Vec<Job>) -> (r: Vec<(u64, String)>)
    ensures
        r@.map_values(|t: (u64, String)| (t.0, t.1@)) == annotated(types::job_views(jobs@)),
{
    let mut out: Vec<(u64, String)> = Vec::new();
    let ghost views = types::job_views(jobs@);
    let ghost pair = |t: (u64, String)| (t.0, t.1@);
    let mut i: usize = 0;
    assert(out@.map_values(pair) =~= annotated(views.take(0)));
    while i < jobs.len()
        invariant
            i <= jobs@.len(),
            views == types::job_views(jobs@),
            pair == (|t: (u64, String)| (t.0, t.1@)),
            out@.map_values(pair) == annotated(views.take(i as int)),
        decreases jobs@.len() - i,
    {
        assert(views.take(i + 1).drop_last() =~= views.take(i as int));
        assert(views.take(i + 1).last() == jobs@[i as int]@);
        if let Some(id) = jobs[i].check_run_id {
            if jobs[i].status == RunStatus::Completed {
                let ghost before = out@;
                let target: (u64, String) = (id, jobs[i].name.clone());
                out.push(target);
                assert(out@.map_values(pair) =~= before.map_values(pair).push(pair(target)));
            }
        }
        i += 1;
    }
    assert(views.take(views.len() as int) =~= views);
    out
}

/// Fetch and clean one step's log, out of the run's downloaded log archive.
pub fn fetch_step_log(
    archive: Result<Vec<u8>, ApiFailure>,
    job_name: &str,
    step_number: i64,
    step_name: &str,
) -> (r: Result<String, String>)
    ensures
        log::result_text(r) == match archive {
            Ok(bytes) => log::archived_step_log(
                log::zip_contents(bytes@),
                job_name@,
                step_number as int,
                step_name@,
            ),
            Err(failure) => Err(failure_message(failure)),
        },
{
    match archive {
        Ok(bytes) => log::extract_step_log(bytes.as_slice(), job_name, step_number, step_name),
        Err(failure) => Err(failure_text(&failure)),
    }
}

/// Cut a job's downloaded log into its sections, or say why there is none.
pub fn fetch_job_log(raw: Result<String, ApiFailure>) -> (r: Result<Vec<Section>, String>)
    ensures
        match (raw, r) {
            (Ok(log), Ok(sections)) => job_log::section_views(sections@) == job_log::sections_of(
                log@,
            ),
            (Err(failure), Err(message)) => message@ == failure_message(failure),
            _ => false,
        },
{
    match raw {
        Ok(log) => Ok(job_log::sections(log.as_str())),
        Err(failure) => Err(failure_text(&failure)),
    }
}

/// What asking for a user code takes.
#[derive(Debug)]
pub struct DeviceRequest {
    /// The host to ask: the device endpoints live on github.com, not on the
    /// API's host.
    pub base_uri: &'static str,
    /// The `Accept` header: the endpoints answer in JSON only when asked to.
    pub accept: &'static str,
    pub client_id: &'static str,
    pub scopes: Vec<&'static str>,
}

/// Step 1 of the device flow, what is asked: a user code for this app, with the
/// one scope it needs.
pub fn device_flow_request() -> (r: DeviceRequest)
    ensures
        r.base_uri@ == "https://github.com"@,
        r.accept@ == "application/json"@,
        r.client_id@ == CLIENT_ID@,
        r.scopes@.len() == 1,
        r.scopes@[0]@ == "repo"@,
{
    let mut scopes: Vec<&'static str> = Vec::new();
    scopes.push(SCOPE);
    DeviceRequest {
        base_uri: "https://github.com",
        accept: "application/json",
        client_id: CLIENT_ID,
        scopes,
    }
}

/// An in-progress device-flow authorisation: the code to show, and where to
/// enter it.
#[derive(Debug)]
pub struct DeviceFlow {
    pub user_code: String,
    pub verification_uri: String,
}

/// Step 1 of the device flow, what comes back: the user code that GitHub gave,
/// or why not.
pub fn start_device_flow(codes: Result<(String, String), ApiFailure>) -> (r: Result<
    DeviceFlow,
    ConnectError,
>)
    ensures
        match (codes, r) {
            (Ok((code, uri)), Ok(flow)) => flow == (DeviceFlow {
                user_code: code,
                verification_uri: uri,
            }),
            (Err(failure), Err(error)) => diagnosed(error, failure),
            _ => false,
        },
{
    match codes {
        Ok((user_code, verification_uri)) => Ok(DeviceFlow { user_code, verification_uri }),
        Err(failure) => Err(diagnose(&failure)),
    }
}

impl DeviceFlow {
    /// Step 2: the access token, once the user authorised (or the code
    /// expired).
    pub fn poll(self, token: Result<String, ApiFailure>) -> (r: Result<String, ConnectError>)
        ensures
            match (token, r) {
                (Ok(token), Ok(given)) => given == token,
                (Err(failure), Err(error)) => diagnosed(error, failure),
                _ => false,
            },
    {
        match token {
            Ok(token) => Ok(token),
            Err(failure) => Err(diagnose(&failure)),
        }
    }
}

/// Each failure is sorted and told by what it is: a rejected token to sign in
/// again, a spent budget or a missing access as that, a resource that is not
/// there, any other answer with its status and message, and a lost network.
pub proof fn law_failures_are_told(error: ConnectError, failure: ApiFailure)
    requires
        diagnosed(error, failure),
    ensures
        failure matches ApiFailure::GitHub { status, message } ==> {
            &&& status == 401 <==> error is Auth
            &&& status == 403 <==> error is RateLimited
            &&& error !is Offline
            &&& status == 401 ==> error.spec_message()
                == "GitHub rejected the token (401). It may be invalid or expired — sign in again."@
            &&& status == 403 ==> error.spec_message()
                == "GitHub returned 403 — the rate limit is reached, or the token doesn't have the access it needs."@
            &&& status == 404 ==> error.spec_message()
                == "Not found (404) — the token may not be able to see that resource."@
            &&& status != 401 && status != 403 && status != 404 ==> error.spec_message()
                == "GitHub error "@ + text::decimal(status as nat) + ": "@ + message@
        },
        failure is Transport ==> error is Offline && error.spec_message()
            == "Can't reach GitHub — check your internet connection."@,
        failure matches ApiFailure::Other(reason) ==> error is Other && error.spec_message()
            == "Unexpected error: "@ + reason@,
{
}

/// An error says its own message, of whatever kind it is.
pub proof fn law_errors_keep_their_message(message: String)
    ensures
        ConnectError::Auth(message).spec_message() == message@,
        ConnectError::Offline(message).spec_message() == message@,
        ConnectError::RateLimited(message).spec_message() == message@,
        ConnectError::Other(message).spec_message() == message@,
{
}

/// The budget at connecting is the one reported, its reset at the second
/// reported.
pub proof fn law_core_budget_is_kept(core: CoreLimits)
    ensures
        core_rate(core).remaining == core.remaining,
        core_rate(core).limit == core.limit,
        core.reset <= 8_210_266_876_799 ==> core_rate(core).reset == Some(
            Timestamp { secs: core.reset as i64, nanos: 0 },
        ),
{
}

/// A repository with an owner can be watched, under its own names, and one
/// without cannot; they stay in the order they came in.
pub proof fn law_watchable_one_by_one(models: Seq<RepositoryModel>, model: RepositoryModel)
    ensures
        watchable(Seq::empty()).len() == 0,
        model.owner is None ==> watchable(models.push(model)) == watchable(models),
        model.owner matches Some(owner) ==> watchable(models.push(model)) == watchable(models).push(
            Repo { owner, name: model.name, private: model.private == Some(true) },
        ),
{
    assert(models.push(model).drop_last() =~= models);
}

/// A repo is asked for by its owner, what stands before its first slash, and
/// its name, what stands behind; one without a slash gets a complaint that
/// quotes it.
pub proof fn law_names_are_cut_at_the_slash(owner: Seq<char>, name: Seq<char>)
    requires
        !owner.contains('/'),
    ensures
        name_parts(owner + seq!['/'] + name) == Ok::<(Seq<char>, Seq<char>), Seq<char>>(
            (owner, name),
        ),
        name_parts(owner) == Err::<(Seq<char>, Seq<char>), Seq<char>>(
            "“"@ + owner + "” isn't a valid owner/name"@,
        ),
{
    text::law_cut_at_the_first(owner, name, '/');
    assert(owner + seq!['/'] + name =~= owner.push('/') + name);
    owner.index_of_first_ensures('/');
}

/// A request for a repo's runs asks for that repo's newest twenty, and carries
/// the stored ETag where there is one.
pub proof fn law_request_asks_for_its_repo(
    request: RunsRequest,
    target: TargetView,
    owner: Seq<char>,
    name: Seq<char>,
)
    requires
        !owner.contains('/'),
        target.repo == owner + seq!['/'] + name,
        asks_for(request, target),
    ensures
        request.owner@ == owner,
        request.name@ == name,
        request.uri@ == "/repos/"@ + owner + "/"@ + name + "/actions/runs?per_page=20"@,
        target.etag is None ==> headers::header_values(request.headers) == Map::<
            Seq<char>,
            Seq<u8>,
        >::empty(),
        headers::header_values(request.headers) == headers::conditional_headers(target.etag),
{
    law_names_are_cut_at_the_slash(owner, name);
}

/// Each action has its own place under its own run of its own repo.
pub proof fn law_each_action_has_its_place(owner: Seq<char>, name: Seq<char>, id: u64)
    ensures
        action_uri(owner, name, id, RunAction::Rerun) == "/repos/"@ + owner + "/"@ + name
            + "/actions/runs/"@ + text::decimal(id as nat) + "/rerun"@,
        action_uri(owner, name, id, RunAction::RerunFailed) == "/repos/"@ + owner + "/"@ + name
            + "/actions/runs/"@ + text::decimal(id as nat) + "/rerun-failed-jobs"@,
        action_uri(owner, name, id, RunAction::Cancel) == "/repos/"@ + owner + "/"@ + name
            + "/actions/runs/"@ + text::decimal(id as nat) + "/cancel"@,
{
}

/// A page of runs is taken run by run, each for the repo that was asked and
/// with its own values, and the ETag that came with it is kept.
pub proof fn law_page_is_taken_run_by_run(
    repo: Seq<char>,
    reply: RunsReply,
    models: Vec<RunModel>,
    i: int,
)
    requires
        reply.status == 200,
        reply.runs == Ok::<Vec<RunModel>, ApiFailure>(models),
    ensures
        outcome_of(judged(repo, Ok(reply))) matches OutcomeView::Fresh { etag, runs } && {
            &&& etag == headers::etag_of(headers::header_values(reply.headers))
            &&& runs.len() == models@.len()
            &&& 0 <= i < runs.len() ==> {
                &&& runs[i].repo == repo
                &&& runs[i].id == models@[i].id
                &&& runs[i].run_number == models@[i].run_number
                &&& runs[i].workflow_name == models@[i].name@
                &&& runs[i].head_branch == models@[i].head_branch@
                &&& runs[i].event == models@[i].event@
                &&& runs[i].created_at == models@[i].created_at
                &&& runs[i].updated_at == models@[i].updated_at
                &&& runs[i].html_url == models@[i].html_url@
            }
        },
{
}

/// Only a 200 brings runs and only a 304 says that nothing changed; any other
/// answer is a failure, told by its status, and so is no answer at all.
pub proof fn law_answers_by_status(repo: Seq<char>, reply: RunsReply, failure: ApiFailure)
    ensures
        ({
            let outcome = outcome_of(judged(repo, Ok(reply)));
            &&& outcome is NotModified <==> reply.status == 304
            &&& outcome is Fresh <==> reply.status == 200 && reply.runs is Ok
            &&& reply.status == 401 ==> outcome == OutcomeView::Failed(
                "GitHub rejected the token (401). It may be invalid or expired — sign in again."@,
            )
            &&& reply.status == 403 ==> outcome == OutcomeView::Failed(
                "GitHub returned 403 — the rate limit is reached, or the token doesn't have the access it needs."@,
            )
            &&& reply.status == 404 ==> outcome == OutcomeView::Failed(
                "Not found (404) — check that "@ + repo
                    + " exists and that your account has access to it."@,
            )
            &&& reply.status != 200 && reply.status != 304 && reply.status != 401 && reply.status
                != 403 && reply.status != 404 ==> outcome == OutcomeView::Failed(
                "GitHub returned HTTP "@ + text::decimal(reply.status as nat) + " for "@ + repo,
            )
        }),
        outcome_of(judged(repo, Err(failure))) == OutcomeView::Failed(failure_message(failure)),
        judged(repo, Ok(reply)) matches Ok((_, rate)) ==> rate == headers::rate_of(
            headers::header_values(reply.headers),
        ),
        carried(Ok(reply)) == headers::rate_of(headers::header_values(reply.headers)),
        carried(Err(failure)) is None,
{
}

/// A reply fills the next slot, under the name of the repo that was asked, and
/// touches no other slot.
pub proof fn law_reply_fills_its_slot(
    poll: PollRunView,
    reply: Result<RunsReply, ApiFailure>,
    i: int,
)
    requires
        poll.results.len() < poll.targets.len(),
    ensures
        ({
            let next = poll.answered(reply);
            let here = poll.results.len() as int;
            &&& next.targets == poll.targets
            &&& next.results.len() == here + 1
            &&& next.results[here].repo == poll.targets[here].repo
            &&& next.results[here].outcome == outcome_of(judged(poll.targets[here].repo, reply))
            &&& 0 <= i < here ==> next.results[i] == poll.results[i]
        }),
{
}

/// Moving on to the next repo that can be asked for leaves no repo out: the
/// slots that were filled stay, each repo passed over has no slash in its name
/// and gets the complaint about it, and it ends at a repo with one or at the
/// end.
pub proof fn law_no_repo_is_left_out(poll: PollRunView, i: int)
    requires
        poll.results.len() <= poll.targets.len(),
    ensures
        ({
            let next = poll.advanced();
            let here = next.results.len() as int;
            &&& next.targets == poll.targets && next.rate == poll.rate
            &&& poll.results.len() <= here <= poll.targets.len()
            &&& 0 <= i < poll.results.len() ==> next.results[i] == poll.results[i]
            &&& poll.results.len() <= i < here ==> !poll.targets[i].repo.contains('/')
                && next.results[i].repo == poll.targets[i].repo && next.results[i].outcome
                == OutcomeView::Failed("“"@ + poll.targets[i].repo + "” isn't a valid owner/name"@)
            &&& here < poll.targets.len() ==> poll.targets[here].repo.contains('/')
        }),
    decreases poll.targets.len() - poll.results.len(),
{
    let here = poll.results.len() as int;
    if here < poll.targets.len() {
        let repo = poll.targets[here].repo;
        repo.index_of_first_ensures('/');
        if !poll.asking() {
            let next = PollRunView {
                results: poll.results.push(
                    RepoRunsView { repo, outcome: OutcomeView::Failed(not_a_name(repo)) },
                ),
                ..poll
            };
            law_no_repo_is_left_out(next, i);
            law_no_repo_is_left_out(next, here);
        }
    }
}

/// The annotations of a job are due once it completed and has a check run,
/// under its own name, and of no other job.
pub proof fn law_annotations_of_completed_jobs(jobs: Seq<types::JobView>, job: types::JobView)
    ensures
        annotated(Seq::empty()).len() == 0,
        job.status == RunStatus::Completed && job.check_run_id is Some ==> annotated(jobs.push(job))
            == annotated(jobs).push((job.check_run_id.unwrap(), job.name)),
        job.status != RunStatus::Completed || job.check_run_id is None ==> annotated(jobs.push(job))
            == annotated(jobs),
{
    assert(jobs.push(job).drop_last() =~= jobs);
}

} // verus!
