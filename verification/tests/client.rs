use http::HeaderValue;
use pitwall::github::cache::RunCache;
use pitwall::github::client::{
    action_request, annotation_targets, connect, device_flow_request, diagnose, fetch_job_log,
    fetch_runs, fetch_step_log, list_jobs, list_repos, poll_runs,
    split_name, start_device_flow, ApiFailure, ConnectError, ConnectEvent, ConnectStep, CoreLimits,
    PollTarget, RunsOutcome, RunsReply, CLIENT_ID, SCOPE,
};
use pitwall::github::types::{Job, JobModel, RepositoryModel, RunAction, RunModel, RunStatus};
use pitwall::time::Timestamp;

fn github(status: u16) -> ApiFailure {
    ApiFailure::GitHub { status, message: "Server Error".to_owned() }
}

#[test]
fn every_failure_names_its_fix() {
    let auth = diagnose(&github(401));
    assert!(auth.is_auth());
    assert_eq!(
        auth.message(),
        "GitHub rejected the token (401). It may be invalid or expired — sign in again."
    );
    let limited = diagnose(&github(403));
    assert!(matches!(limited, ConnectError::RateLimited(_)));
    assert_eq!(
        limited.message(),
        "GitHub returned 403 — the rate limit is reached, or the token doesn't have the access it needs."
    );
    let missing = diagnose(&github(404));
    assert!(matches!(missing, ConnectError::Other(_)));
    assert_eq!(
        missing.message(),
        "Not found (404) — the token may not be able to see that resource."
    );
    let other = diagnose(&github(500));
    assert!(matches!(other, ConnectError::Other(_)));
    assert_eq!(other.message(), "GitHub error 500: Server Error");
    let offline = diagnose(&ApiFailure::Transport);
    assert!(matches!(offline, ConnectError::Offline(_)));
    assert!(!offline.is_auth());
    assert_eq!(offline.message(), "Can't reach GitHub — check your internet connection.");
    let odd = diagnose(&ApiFailure::Other("bad json".to_owned()));
    assert!(matches!(odd, ConnectError::Other(_)));
    assert_eq!(odd.message(), "Unexpected error: bad json");
}

#[test]
fn connecting_takes_a_client_a_user_and_a_budget() {
    assert!(matches!(connect(ConnectEvent::Built(Ok(()))), ConnectStep::AskUser));
    let asked = connect(ConnectEvent::User(Ok("jane".to_owned())));
    let ConnectStep::AskLimits { login } = asked else { panic!("no limits asked") };
    let core = CoreLimits { remaining: 10, limit: 5000, reset: 60 };
    match connect(ConnectEvent::Limits { login, core: Ok(core) }) {
        ConnectStep::Finished(Ok(connection)) => {
            assert_eq!(connection.login, "jane");
            assert_eq!(connection.rate.remaining, 10);
            assert_eq!(connection.rate.limit, 5000);
            assert_eq!(connection.rate.reset, Some(Timestamp { secs: 60, nanos: 0 }));
        }
        other => panic!("{other:?}"),
    }
}

#[test]
fn the_first_failure_ends_connecting() {
    let events = vec![
        ConnectEvent::Built(Err(github(401))),
        ConnectEvent::User(Err(github(401))),
        ConnectEvent::Limits { login: "jane".to_owned(), core: Err(github(401)) },
    ];
    for event in events {
        match connect(event) {
            ConnectStep::Finished(Err(error)) => assert!(error.is_auth()),
            other => panic!("{other:?}"),
        }
    }
}

#[test]
fn only_owned_repos_are_listed() {
    let model = |owner: Option<&str>, name: &str| RepositoryModel {
        owner: owner.map(str::to_owned),
        name: name.to_owned(),
        private: None,
    };
    let repos = list_repos(Ok(vec![
        model(Some("a"), "one"),
        model(None, "two"),
        model(Some("b"), "three"),
    ]))
    .unwrap();
    let names: Vec<String> = repos.iter().map(|repo| repo.full_name()).collect();
    assert_eq!(names, vec!["a/one", "b/three"]);
    assert!(matches!(list_repos(Err(ApiFailure::Transport)), Err(ConnectError::Offline(_))));
}

#[test]
fn a_full_name_splits_at_its_first_slash() {
    assert_eq!(split_name("a/b"), Ok(("a".to_owned(), "b".to_owned())));
    assert_eq!(split_name("a/b/c"), Ok(("a".to_owned(), "b/c".to_owned())));
    assert_eq!(split_name("/"), Ok((String::new(), String::new())));
    assert_eq!(split_name("plain"), Err("“plain” isn't a valid owner/name".to_owned()));
}

fn run_model(id: u64) -> RunModel {
    RunModel {
        id,
        run_number: 1,
        name: "CI".to_owned(),
        head_branch: "main".to_owned(),
        event: "push".to_owned(),
        status: "in_progress".to_owned(),
        conclusion: None,
        head_sha: "a1b2c3d".to_owned(),
        commit_message: "m".to_owned(),
        commit_author: "j".to_owned(),
        created_at: Timestamp { secs: 1, nanos: 0 },
        updated_at: Timestamp { secs: 2, nanos: 0 },
        html_url: "u".to_owned(),
    }
}

fn reply(status: u16, remaining: &'static str, etag: Option<&'static str>) -> RunsReply {
    let mut headers = http::HeaderMap::new();
    headers.insert("x-ratelimit-remaining", HeaderValue::from_static(remaining));
    headers.insert("x-ratelimit-limit", HeaderValue::from_static("5000"));
    if let Some(etag) = etag {
        headers.insert("etag", HeaderValue::from_static(etag));
    }
    RunsReply { status, headers, runs: Ok(vec![run_model(5), run_model(6)]) }
}

fn target(repo: &str, etag: Option<&str>) -> PollTarget {
    PollTarget { repo: repo.to_owned(), etag: etag.map(str::to_owned) }
}

#[test]
fn a_poll_goes_repo_by_repo() {
    let mut poll = poll_runs(vec![
        target("nameless", None),
        target("a/one", Some("\"e1\"")),
        target("b/two", None),
        target("c/three", None),
        target("d/four", None),
    ]);
    let first = poll.next().unwrap();
    assert_eq!(first.owner, "a");
    assert_eq!(first.name, "one");
    assert_eq!(first.uri, "/repos/a/one/actions/runs?per_page=20");
    assert_eq!(first.headers.get("if-none-match").unwrap(), "\"e1\"");
    poll.answer(Ok(reply(304, "90", None)));
    let second = poll.next().unwrap();
    assert_eq!(second.uri, "/repos/b/two/actions/runs?per_page=20");
    assert!(second.headers.is_empty());
    poll.answer(Ok(reply(200, "89", Some("\"e2\""))));
    assert!(poll.next().is_some());
    poll.answer(Ok(reply(502, "10", None)));
    assert!(poll.next().is_some());
    poll.answer(Err(ApiFailure::Transport));
    assert!(poll.next().is_none());
    let poll = poll.finish();

    assert_eq!(poll.rate.unwrap().remaining, 10);
    let repos: Vec<&str> = poll.repos.iter().map(|slot| slot.repo.as_str()).collect();
    assert_eq!(repos, vec!["nameless", "a/one", "b/two", "c/three", "d/four"]);
    let failure = |slot: usize| match &poll.repos[slot].outcome {
        RunsOutcome::Failed(message) => message.clone(),
        other => panic!("{other:?}"),
    };
    assert_eq!(failure(0), "“nameless” isn't a valid owner/name");
    assert!(matches!(poll.repos[1].outcome, RunsOutcome::NotModified));
    match &poll.repos[2].outcome {
        RunsOutcome::Fresh { etag, runs } => {
            assert_eq!(etag.as_deref(), Some("\"e2\""));
            let ids: Vec<u64> = runs.iter().map(|run| run.id).collect();
            assert_eq!(ids, vec![5, 6]);
            assert_eq!(runs[0].repo, "b/two");
            assert_eq!(runs[0].status, RunStatus::InProgress);
        }
        other => panic!("{other:?}"),
    }
    assert_eq!(failure(3), "GitHub returned HTTP 502 for c/three");
    assert_eq!(failure(4), "Can't reach GitHub — check your internet connection.");
}

#[test]
fn an_unreadable_page_fails_its_repo() {
    let mut poll = poll_runs(vec![target("a/one", None)]);
    assert!(poll.next().is_some());
    let mut bad = reply(200, "5", None);
    bad.runs = Err(ApiFailure::Other("missing field".to_owned()));
    poll.answer(Ok(bad));
    assert!(poll.next().is_none());
    let poll = poll.finish();
    assert_eq!(poll.rate.unwrap().remaining, 5);
    match &poll.repos[0].outcome {
        RunsOutcome::Failed(message) => assert_eq!(message, "Unexpected error: missing field"),
        other => panic!("{other:?}"),
    }
}

#[test]
fn an_empty_poll_is_done_at_once() {
    let mut poll = poll_runs(vec![]);
    assert!(poll.next().is_none());
    assert!(poll.finish().repos.is_empty());
}

#[test]
fn the_cache_keeps_what_a_poll_leaves() {
    let mut cache = RunCache::new();
    assert_eq!(cache.etag("b/two"), None);
    let mut poll = poll_runs(vec![target("b/two", None)]);
    poll.next();
    poll.answer(Ok(reply(200, "89", Some("\"e2\""))));
    poll.next();
    cache.absorb(poll.finish().repos);
    assert_eq!(cache.etag("b/two"), Some("\"e2\"".to_owned()));
    assert_eq!(cache.runs("b/two").len(), 2);

    let watched = vec!["b/two".to_owned(), "a/one".to_owned()];
    let targets = cache.targets(&watched);
    assert_eq!(targets[0].etag.as_deref(), Some("\"e2\""));
    assert_eq!(targets[1].etag, None);

    let mut poll = poll_runs(targets);
    poll.next();
    poll.answer(Ok(reply(304, "88", None)));
    poll.next();
    poll.answer(Err(ApiFailure::Transport));
    poll.next();
    cache.absorb(poll.finish().repos);
    assert_eq!(cache.known(&watched).len(), 2);

    cache.requeue("b/two", 6);
    assert_eq!(cache.runs("b/two")[0].status, RunStatus::InProgress);
    assert_eq!(cache.runs("b/two")[1].status, RunStatus::Queued);
    assert_eq!(cache.etag("b/two"), Some("\"e2\"".to_owned()));
    cache.forget_etag("b/two");
    assert_eq!(cache.etag("b/two"), None);
    assert_eq!(cache.runs("b/two").len(), 2);
}

fn job_model(name: &str, status: &str, url: &str) -> JobModel {
    JobModel {
        id: 1,
        name: name.to_owned(),
        status: status.to_owned(),
        conclusion: None,
        started_at: Timestamp { secs: 1, nanos: 0 },
        completed_at: None,
        steps: vec![],
        check_run_url: url.to_owned(),
    }
}

#[test]
fn jobs_are_listed_in_order() {
    let jobs = list_jobs(Ok(vec![
        job_model("build", "completed", "x/1"),
        job_model("lint", "in_progress", "x/2"),
    ]))
    .unwrap();
    assert_eq!(jobs.len(), 2);
    assert_eq!(jobs[1].name, "lint");
    assert_eq!(
        list_jobs(Err(github(404))).unwrap_err(),
        "Not found (404) — the token may not be able to see that resource."
    );
}

#[test]
fn annotations_are_due_for_completed_jobs() {
    let jobs: Vec<Job> = vec![
        Job::from_model(job_model("build", "completed", "x/1")),
        Job::from_model(job_model("lint", "in_progress", "x/2")),
        Job::from_model(job_model("docs", "completed", "x/none")),
        Job::from_model(job_model("test", "completed", "x/4")),
    ];
    assert_eq!(
        annotation_targets(&jobs),
        vec![(1, "build".to_owned()), (4, "test".to_owned())]
    );
}

#[test]
fn a_failed_download_is_told() {
    assert_eq!(
        fetch_step_log(Err(ApiFailure::Transport), "build", 1, "x"),
        Err("Can't reach GitHub — check your internet connection.".to_owned())
    );
    let err = fetch_step_log(Ok(b"junk".to_vec()), "build", 1, "x").unwrap_err();
    assert!(err.starts_with("couldn't open the log archive: "));
}

#[test]
fn the_device_flow_carries_code_and_token() {
    assert_eq!(CLIENT_ID, "Ov23linyDdWA8pzgyrUQ");
    assert_eq!(SCOPE, "repo");
    let codes = ("ABCD-1234".to_owned(), "https://github.com/login/device".to_owned());
    let flow = start_device_flow(Ok(codes)).unwrap();
    assert_eq!(flow.user_code, "ABCD-1234");
    assert_eq!(flow.verification_uri, "https://github.com/login/device");
    assert_eq!(flow.poll(Ok("token".to_owned())).unwrap(), "token");
    let failed = start_device_flow(Err(github(401))).unwrap_err();
    assert!(failed.is_auth());
}

#[test]
fn an_action_has_its_place() {
    let asked = |action| action_request("a/one", 42, action);
    assert_eq!(asked(RunAction::Rerun), Ok("/repos/a/one/actions/runs/42/rerun".to_owned()));
    assert_eq!(
        asked(RunAction::RerunFailed),
        Ok("/repos/a/one/actions/runs/42/rerun-failed-jobs".to_owned())
    );
    assert_eq!(asked(RunAction::Cancel), Ok("/repos/a/one/actions/runs/42/cancel".to_owned()));
    assert_eq!(
        action_request("plain", 42, RunAction::Cancel),
        Err("“plain” isn't a valid owner/name".to_owned())
    );
}

#[test]
fn a_failed_poll_names_the_fix() {
    let told = |status: u16| fetch_runs("a/b", Ok(reply(status, "7", None))).unwrap_err();
    assert_eq!(
        told(404),
        "Not found (404) — check that a/b exists and that your account has access to it."
    );
    assert_eq!(
        told(401),
        "GitHub rejected the token (401). It may be invalid or expired — sign in again."
    );
    assert_eq!(
        told(403),
        "GitHub returned 403 — the rate limit is reached, or the token doesn't have the access it needs."
    );
    assert_eq!(told(500), "GitHub returned HTTP 500 for a/b");
}

#[test]
fn the_last_budget_counts_whatever_the_status() {
    let mut poll = poll_runs(vec![target("a/b", None), target("c/d", None), target("e/f", None)]);
    assert!(poll.next().is_some());
    poll.answer(Ok(reply(200, "100", None)));
    assert!(poll.next().is_some());
    poll.answer(Ok(reply(404, "99", None)));
    assert!(poll.next().is_some());
    poll.answer(Ok(RunsReply { status: 500, headers: http::HeaderMap::new(), runs: Ok(vec![]) }));
    assert!(poll.next().is_none());
    assert_eq!(poll.finish().rate.unwrap().remaining, 99);
}

#[test]
fn a_user_code_is_asked_of_github() {
    let request = device_flow_request();
    assert_eq!(request.base_uri, "https://github.com");
    assert_eq!(request.accept, "application/json");
    assert_eq!(request.client_id, CLIENT_ID);
    assert_eq!(request.scopes, vec!["repo"]);
}

#[test]
fn a_job_log_comes_in_sections() {
    let sections = fetch_job_log(Ok("##[group]Build\nok\n".to_owned())).unwrap();
    assert_eq!(sections.len(), 1);
    assert_eq!(sections[0].title.as_deref(), Some("Build"));
    assert_eq!(
        fetch_job_log(Err(ApiFailure::Transport)).unwrap_err(),
        "Can't reach GitHub — check your internet connection."
    );
}
