use pitwall::components::job_log_view::{JobLogCmd, JobLogInit, JobLogView};
use pitwall::github::job_log::sections;
use pitwall::components::log_view::{LogView, LogViewCmd, LogViewInit, LogViewOutput};
use pitwall::components::repo_list::RepoList;
use pitwall::components::repo_picker::{
    row_matches, search_shows, RepoPicker, RepoPickerCmd, RepoPickerInit, RepoPickerInput,
    RepoPickerOutput,
};
use pitwall::components::run_detail::{
    annotation_icon, started_from, RunDetail, RunDetailCmd, RunDetailInit, RunDetailInput,
    RunDetailOutput,
};
use pitwall::components::run_row::{run_action_spec, RunRow, RunRowInput, RunRowOutput};
use pitwall::components::status_chip::{build, label, variant};
use pitwall::github::types::{
    Annotation, AnnotationLevel, Conclusion, Job, Repo, RunStatus, Step, WorkflowRun,
};
use pitwall::time::Timestamp;

fn at(secs: i64) -> Timestamp {
    Timestamp { secs, nanos: 0 }
}

fn run() -> WorkflowRun {
    WorkflowRun {
        id: 7,
        run_number: 128,
        workflow_name: "CI".to_owned(),
        repo: "SoftARV/Pitwall".to_owned(),
        head_branch: "main".to_owned(),
        event: "push".to_owned(),
        status: RunStatus::Completed,
        conclusion: Some(Conclusion::Success),
        head_sha: "a1b2c3d4e5f6".to_owned(),
        commit_message: "Fix the race\r\n\r\nDetails".to_owned(),
        commit_author: "Jane Doe".to_owned(),
        created_at: at(1_784_903_400),
        updated_at: at(1_784_903_483),
        html_url: "https://github.com/SoftARV/Pitwall/actions/runs/7".to_owned(),
    }
}

#[test]
fn chips_are_labelled_and_coloured() {
    let seen = |status, conclusion| (label(status, conclusion), variant(status, conclusion));
    assert_eq!(seen(RunStatus::Queued, None), ("Queued", "warning"));
    assert_eq!(seen(RunStatus::InProgress, None), ("Running", "accent"));
    assert_eq!(seen(RunStatus::Cancelling, None), ("Cancelling", "neutral"));
    assert_eq!(seen(RunStatus::Unknown, Some(Conclusion::Success)), ("Unknown", "neutral"));
    let done = |conclusion| seen(RunStatus::Completed, conclusion);
    assert_eq!(done(Some(Conclusion::Success)), ("Success", "success"));
    assert_eq!(done(Some(Conclusion::Failure)), ("Failure", "error"));
    assert_eq!(done(Some(Conclusion::Cancelled)), ("Cancelled", "neutral"));
    assert_eq!(done(Some(Conclusion::Skipped)), ("Skipped", "neutral"));
    assert_eq!(done(Some(Conclusion::TimedOut)), ("Timed out", "error"));
    assert_eq!(done(Some(Conclusion::ActionRequired)), ("Action required", "warning"));
    assert_eq!(done(Some(Conclusion::Neutral)), ("Neutral", "neutral"));
    assert_eq!(done(Some(Conclusion::StartupFailure)), ("Startup failure", "error"));
    assert_eq!(done(Some(Conclusion::Stale)), ("Stale", "neutral"));
    assert_eq!(done(Some(Conclusion::Unknown)), ("Completed", "neutral"));
    assert_eq!(done(None), ("Completed", "neutral"));
    let chip = build(RunStatus::Completed, Some(Conclusion::Failure));
    assert_eq!((chip.label, chip.variant), ("Failure", "error"));
}

#[test]
fn a_row_shows_its_run() {
    let mut row = RunRow::new(run());
    assert_eq!(row.id(), 7);
    assert_eq!(row.title(), "CI #128");
    assert_eq!(
        row.subtitle_at(at(1_784_903_700)),
        "SoftARV/Pitwall · main · push · 5m ago"
    );
    assert!(row.subtitle().starts_with("SoftARV/Pitwall · main · push · "));
    assert!(matches!(row.activated(), RunRowOutput::ShowDetails(7)));
    match row.browser_clicked() {
        RunRowOutput::OpenInBrowser(url) => {
            assert_eq!(url, "https://github.com/SoftARV/Pitwall/actions/runs/7")
        }
        other => panic!("{other:?}"),
    }
    let mut fresh = run();
    fresh.run_number = -3;
    row.update(RunRowInput::Update(fresh));
    assert_eq!(row.title(), "CI #-3");
}

#[test]
fn the_action_follows_the_status() {
    let cancel = run_action_spec(RunStatus::InProgress);
    assert_eq!((cancel.label, cancel.action, cancel.enabled), ("Cancel", "runs.cancel", true));
    assert!(run_action_spec(RunStatus::Queued).enabled);
    let stopping = run_action_spec(RunStatus::Cancelling);
    assert!(!stopping.enabled);
    let rerun = run_action_spec(RunStatus::Completed);
    assert_eq!((rerun.label, rerun.action, rerun.enabled), ("Re-run", "runs.rerun", true));
    assert_eq!(run_action_spec(RunStatus::Unknown).label, "Re-run");
}

fn job(name: &str, completed: Option<i64>) -> Job {
    Job {
        id: 11,
        name: name.to_owned(),
        status: if completed.is_some() { RunStatus::Completed } else { RunStatus::InProgress },
        conclusion: completed.map(|_| Conclusion::Success),
        started_at: Some(at(100)),
        completed_at: completed.map(at),
        steps: vec![Step {
            name: "Set up job".to_owned(),
            number: 1,
            status: RunStatus::Completed,
            conclusion: Some(Conclusion::Success),
            started_at: Some(at(100)),
            completed_at: Some(at(145)),
        }],
        check_run_id: Some(99),
    }
}

fn loaded(jobs: Vec<Job>) -> RunDetailCmd {
    RunDetailCmd::JobsLoaded(Box::new(Ok(jobs)))
}

fn failed(message: &str) -> RunDetailCmd {
    RunDetailCmd::JobsLoaded(Box::new(Err(message.to_owned())))
}

#[test]
fn the_detail_page_shows_its_run() {
    let page = RunDetail::init(RunDetailInit { run: run() });
    assert_eq!(page.title(), "CI #128");
    assert_eq!(page.commit_title(), "Fix the race");
    assert_eq!(page.commit_subtitle(), "a1b2c3d · Jane Doe");
    assert_eq!(page.started_text_at(at(0)), "2026-07-24 14:30 · 1m 23s");
    assert_eq!(page.started_text(), "2026-07-24 14:30 · 1m 23s");
    assert_eq!(page.jobs_page(), "loading");
    assert_eq!(page.error(), "");
    let request = page.fetch_jobs().unwrap();
    assert_eq!((request.owner.as_str(), request.name.as_str()), ("SoftARV", "Pitwall"));
    assert_eq!(request.run_id, 7);
    match page.browser_clicked() {
        RunDetailOutput::OpenInBrowser(url) => assert_eq!(url, page.run().html_url),
        other => panic!("{other:?}"),
    }
}

#[test]
fn a_running_run_counts_up() {
    let mut running = run();
    running.status = RunStatus::InProgress;
    let shown = started_from("then".to_owned(), &running, at(1_784_903_445));
    assert_eq!(shown, "then · 45s");
}

#[test]
fn odd_commits_are_shown_as_they_are() {
    let mut odd = run();
    odd.commit_message = String::new();
    odd.head_sha = "abc".to_owned();
    let page = RunDetail::init(RunDetailInit { run: odd });
    assert_eq!(page.commit_title(), "");
    assert_eq!(page.commit_subtitle(), "abc · Jane Doe");
    let mut wide = run();
    wide.head_sha = "ééééé".to_owned();
    let page = RunDetail::init(RunDetailInit { run: wide });
    assert_eq!(page.commit_subtitle(), "ééééé · Jane Doe");
    let mut exact = run();
    exact.head_sha = "1234567".to_owned();
    let page = RunDetail::init(RunDetailInit { run: exact });
    assert_eq!(page.commit_subtitle(), "1234567 · Jane Doe");
}

#[test]
fn a_nameless_repo_cannot_be_asked() {
    let mut nameless = run();
    nameless.repo = "plain".to_owned();
    let page = RunDetail::init(RunDetailInit { run: nameless });
    assert_eq!(page.fetch_jobs().unwrap_err(), "“plain” isn't a valid owner/name");
    assert!(page.fetch_annotations().is_none());
}

#[test]
fn jobs_become_rows() {
    let mut page = RunDetail::init(RunDetailInit { run: run() });
    let now = at(190);
    assert!(page.update_cmd(loaded(vec![job("build", Some(183)), job("lint", None)]), now));
    assert_eq!(page.jobs_page(), "jobs");
    let rows = page.job_rows();
    assert_eq!(rows.len(), 2);
    assert_eq!(rows[0].title, "build");
    assert_eq!(rows[0].subtitle, "1m 23s");
    assert_eq!(rows[1].subtitle, "running · 1m 30s");
    assert_eq!(rows[0].steps[0].title, "Set up job");
    assert_eq!(rows[0].steps[0].subtitle, "45s");
    assert!(!rows[0].expanded);
    match page.show_log(0).unwrap() {
        RunDetailOutput::ShowJobLog { repo, job_id, job_name, completed, html_url } => {
            assert_eq!(repo, "SoftARV/Pitwall");
            assert_eq!(job_id, 11);
            assert_eq!(job_name, "build");
            assert!(completed);
            assert_eq!(html_url, "https://github.com/SoftARV/Pitwall/actions/runs/7");
        }
        other => panic!("{other:?}"),
    }
    match page.show_log(1).unwrap() {
        RunDetailOutput::ShowJobLog { completed, .. } => assert!(!completed),
        other => panic!("{other:?}"),
    }
    assert!(page.show_log(2).is_none());
    let request = page.fetch_annotations().unwrap();
    assert_eq!(request.check_runs, vec![(99, "build".to_owned())]);
}

#[test]
fn a_refresh_keeps_what_was_expanded() {
    let mut page = RunDetail::init(RunDetailInit { run: run() });
    page.update_cmd(loaded(vec![job("build", None), job("lint", None)]), at(110));
    assert!(!page.update(RunDetailInput::Expanded { row: 1, expanded: true }));
    assert!(!page.update(RunDetailInput::Expanded { row: 9, expanded: true }));
    // Unchanged jobs rebuild nothing.
    assert!(!page.update_cmd(loaded(vec![job("build", None), job("lint", None)]), at(150)));
    assert_eq!(page.job_rows()[0].subtitle, "running · 10s");
    // Changed ones rebuild, and keep the expansion by name.
    assert!(page.update_cmd(loaded(vec![job("lint", Some(120)), job("new", None)]), at(150)));
    assert_eq!(page.job_rows()[0].title, "lint");
    assert!(page.job_rows()[0].expanded);
    assert!(!page.job_rows()[1].expanded);
}

#[test]
fn a_failed_refresh_keeps_the_jobs() {
    let mut page = RunDetail::init(RunDetailInit { run: run() });
    assert!(!page.update_cmd(failed("offline"), at(110)));
    assert_eq!(page.jobs_page(), "error");
    assert_eq!(page.error(), "offline");
    page.update_cmd(loaded(vec![job("build", None)]), at(110));
    assert_eq!(page.jobs_page(), "jobs");
    page.update_cmd(failed("offline again"), at(120));
    assert_eq!(page.jobs_page(), "jobs");
    assert_eq!(page.job_rows().len(), 1);
}

#[test]
fn fresh_run_data_wants_fresh_jobs() {
    let mut page = RunDetail::init(RunDetailInit { run: run() });
    let mut fresh = run();
    fresh.run_number = 129;
    assert!(page.update(RunDetailInput::Refresh(Box::new(fresh))));
    assert_eq!(page.title(), "CI #129");
}

#[test]
fn annotations_become_rows() {
    let mut page = RunDetail::init(RunDetailInit { run: run() });
    assert!(page.annotation_rows().is_empty());
    let annotation = Annotation {
        level: AnnotationLevel::Warning,
        title: String::new(),
        message: "unused".to_owned(),
        location: "a.rs:1".to_owned(),
        job: "build".to_owned(),
    };
    assert!(!page.update_cmd(RunDetailCmd::AnnotationsLoaded(vec![annotation]), at(0)));
    let rows = page.annotation_rows();
    assert_eq!(rows.len(), 1);
    assert_eq!(rows[0].title, "unused");
    assert_eq!(rows[0].subtitle, "a.rs:1 · build");
    assert_eq!((rows[0].icon, rows[0].class), ("dialog-warning-symbolic", "warning"));
    page.update_cmd(RunDetailCmd::AnnotationsLoaded(vec![]), at(0));
    assert!(page.annotation_rows().is_empty());
    assert_eq!(annotation_icon(AnnotationLevel::Failure), ("dialog-error-symbolic", "error"));
    assert_eq!(annotation_icon(AnnotationLevel::Notice), ("dialog-information-symbolic", "accent"));
}

fn picker(watched: &[&str]) -> RepoPicker {
    RepoPicker::init(RepoPickerInit {
        watched: watched.iter().map(|name| (*name).to_owned()).collect(),
    })
}

fn repo(owner: &str, name: &str, private: bool) -> Repo {
    Repo { owner: owner.to_owned(), name: name.to_owned(), private }
}

#[test]
fn the_picker_lists_orphans_first() {
    let mut picker = picker(&["z/gone", "b/two", "a/gone", "b/two"]);
    assert_eq!(picker.page(), "loading");
    picker.update_cmd(RepoPickerCmd::Loaded(Box::new(Ok(vec![
        repo("c", "three", true),
        repo("b", "two", false),
    ]))));
    assert_eq!(picker.page(), "list");
    let rows: Vec<(&str, &str, bool, bool)> = picker
        .rows()
        .iter()
        .map(|row| (row.title.as_str(), row.subtitle, row.active, row.orphan))
        .collect();
    let lost = "Not found — renamed, deleted, or no longer accessible";
    assert_eq!(
        rows,
        vec![
            ("a/gone", lost, true, true),
            ("z/gone", lost, true, true),
            ("c/three", "Private", false, false),
            ("b/two", "Public", true, false),
        ]
    );
}

#[test]
fn saving_gives_the_sorted_choice() {
    let mut picker = picker(&["z/last", "a/first", "a/first"]);
    assert!(picker.update(RepoPickerInput::Toggle("m/mid".to_owned(), true)).is_none());
    assert!(picker.update(RepoPickerInput::Toggle("m/mid".to_owned(), true)).is_none());
    assert!(picker.update(RepoPickerInput::Toggle("z/last".to_owned(), false)).is_none());
    assert!(picker.update(RepoPickerInput::Toggle("not/there".to_owned(), false)).is_none());
    assert!(picker.update(RepoPickerInput::Toggle("a/First".to_owned(), true)).is_none());
    match picker.update(RepoPickerInput::Save) {
        Some(RepoPickerOutput::Saved(names)) => {
            assert_eq!(names, vec!["a/First", "a/first", "m/mid"])
        }
        None => panic!("nothing saved"),
    }
}

#[test]
fn the_picker_tells_why_it_is_empty() {
    let mut picker = picker(&[]);
    assert_eq!(picker.error(), "");
    picker.update_cmd(RepoPickerCmd::Loaded(Box::new(Err("offline".to_owned()))));
    assert_eq!(picker.page(), "error");
    assert_eq!(picker.error(), "offline");
    assert!(picker.rows().is_empty());
}

#[test]
fn the_search_ignores_case() {
    assert!(search_shows("SoftARV/Pitwall", ""));
    assert!(search_shows("SoftARV/Pitwall", "ARV/pit"));
    assert!(search_shows("SoftARV/Pitwall", "PITWALL"));
    assert!(!search_shows("SoftARV/Pitwall", "dockyard"));
    assert!(search_shows("ÄRGER/x", "ärger"));
    assert!(row_matches("abc", "bc"));
    assert!(!row_matches("ABC", "bc"));
}

fn log_init(completed: bool, repo: &str) -> LogViewInit {
    LogViewInit {
        repo: repo.to_owned(),
        run_id: 7,
        job_name: "build".to_owned(),
        step_number: 2,
        step_name: "Run tests".to_owned(),
        completed,
        html_url: "https://github.com/x".to_owned(),
    }
}

#[test]
fn an_unfinished_step_has_no_log() {
    let (page, request) = LogView::init(log_init(false, "o/n"));
    assert_eq!(page.page(), "not-available");
    assert!(request.is_none());
    assert_eq!(page.title(), "Run tests");
    match page.browser_clicked() {
        LogViewOutput::OpenInBrowser(url) => assert_eq!(url, "https://github.com/x"),
    }
}

#[test]
fn a_finished_steps_log_is_fetched() {
    let (mut page, request) = LogView::init(log_init(true, "o/n"));
    assert_eq!(page.page(), "loading");
    let request = request.unwrap().unwrap();
    assert_eq!((request.owner.as_str(), request.name.as_str()), ("o", "n"));
    assert_eq!((request.run_id, request.step_number), (7, 2));
    assert_eq!((request.job_name.as_str(), request.step_name.as_str()), ("build", "Run tests"));
    page.update_cmd(LogViewCmd::Loaded(Box::new(Ok("ok\n".to_owned()))));
    assert_eq!(page.page(), "log");
    assert_eq!(page.buffer(), "ok\n");
    page.update_cmd(LogViewCmd::Loaded(Box::new(Err("gone".to_owned()))));
    assert_eq!(page.page(), "error");
    assert_eq!(page.error(), "gone");
    let (_, request) = LogView::init(log_init(true, "plain"));
    assert_eq!(request.unwrap().unwrap_err(), "“plain” isn't a valid owner/name");
}

#[test]
fn a_job_log_page_waits_loads_and_shows() {
    let init = |repo: &str, completed: bool| JobLogInit {
        repo: repo.to_owned(),
        job_id: 42,
        job_name: "build".to_owned(),
        completed,
        html_url: "https://github.com/o/n/runs/1".to_owned(),
    };
    let (page, request) = JobLogView::init(init("o/n", false));
    assert_eq!(page.page(), "not-available");
    assert!(request.is_none());
    let (mut page, request) = JobLogView::init(init("o/n", true));
    assert_eq!(page.page(), "loading");
    assert_eq!(page.title(), "build");
    assert_eq!(request.unwrap().unwrap().uri, "/repos/o/n/actions/jobs/42/logs");
    page.update_cmd(JobLogCmd::Loaded(Box::new(Err("gone".to_owned()))));
    assert_eq!(page.page(), "error");
    assert_eq!(page.error(), "gone");
    page.update_cmd(JobLogCmd::Loaded(Box::new(Ok(sections("##[group]A\nx\n")))));
    assert_eq!(page.page(), "log");
    assert_eq!(page.error(), "");
    assert_eq!(page.sections().len(), 1);
    let LogViewOutput::OpenInBrowser(url) = page.browser_clicked();
    assert_eq!(url, "https://github.com/o/n/runs/1");
    let (_, request) = JobLogView::init(init("plain", true));
    assert_eq!(request.unwrap().unwrap_err(), "“plain” isn't a valid owner/name");
}

#[test]
fn repos_are_grouped_and_stay_expanded() {
    let of = |id: u64, repo: &str| {
        let mut one = run();
        one.id = id;
        one.repo = repo.to_owned();
        one
    };
    let names = |list: &[&str]| list.iter().map(|n| (*n).to_owned()).collect::<Vec<String>>();
    let shown = |list: &RepoList| {
        list.groups()
            .iter()
            .map(|g| (g.repo.clone(), g.expanded, g.runs.iter().map(|r| r.id).collect()))
            .collect::<Vec<(String, bool, Vec<u64>)>>()
    };
    let mut list = RepoList::new();
    let runs = vec![of(3, "a/b"), of(2, "c/d"), of(1, "a/b")];
    assert!(list.populate(&names(&["a/b", "c/d"]), &runs));
    assert!(!list.populate(&names(&["a/b", "c/d"]), &runs));
    list.set_expanded(1, true);
    list.set_expanded(9, true);
    assert_eq!(
        shown(&list),
        vec![("a/b".to_owned(), false, vec![3, 1]), ("c/d".to_owned(), true, vec![2])]
    );
    let mut moved = vec![of(3, "a/b"), of(2, "c/d")];
    moved[1].status = RunStatus::Queued;
    assert!(list.populate(&names(&["c/d", "e/f"]), &moved));
    assert_eq!(
        shown(&list),
        vec![("c/d".to_owned(), true, vec![2]), ("e/f".to_owned(), false, vec![])]
    );
}
