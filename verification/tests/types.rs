use pitwall::github::types::{
    check_run_id, same_jobs, Annotation, AnnotationLevel, AnnotationModel, Conclusion, Job, JobModel,
    RateLimit, Repo, RepositoryModel, RunModel, RunStatus, StepModel, WorkflowRun,
};
use pitwall::time::Timestamp;

#[test]
fn full_name_is_owner_slash_name() {
    let repo = Repo { owner: "SoftARV".to_owned(), name: "Pitwall".to_owned(), private: true };
    assert_eq!(repo.full_name(), "SoftARV/Pitwall");
}

#[test]
fn run_status_maps_the_api_strings() {
    assert_eq!(RunStatus::from_api("queued"), RunStatus::Queued);
    assert_eq!(RunStatus::from_api("waiting"), RunStatus::Queued);
    assert_eq!(RunStatus::from_api("in_progress"), RunStatus::InProgress);
    assert_eq!(RunStatus::from_api("completed"), RunStatus::Completed);
    assert_eq!(RunStatus::from_api("nonsense"), RunStatus::Unknown);
    assert!(RunStatus::InProgress.is_active());
    assert!(!RunStatus::Completed.is_active());
}

#[test]
fn conclusion_maps_and_flags_failures() {
    assert_eq!(Conclusion::from_api("success"), Conclusion::Success);
    assert_eq!(Conclusion::from_api("timed_out"), Conclusion::TimedOut);
    assert_eq!(Conclusion::from_api("nonsense"), Conclusion::Unknown);
    assert!(Conclusion::Failure.is_failure());
    assert!(Conclusion::TimedOut.is_failure());
    assert!(!Conclusion::Success.is_failure());
    assert!(!Conclusion::Cancelled.is_failure());
}

#[test]
fn every_status_string_has_its_status() {
    assert_eq!(RunStatus::from_api("pending"), RunStatus::Queued);
    assert_eq!(RunStatus::from_api("requested"), RunStatus::Queued);
    assert_eq!(RunStatus::from_api(""), RunStatus::Unknown);
    assert_eq!(RunStatus::from_api("Queued"), RunStatus::Unknown);
    assert_eq!(RunStatus::from_api("cancelling"), RunStatus::Unknown);
    assert!(RunStatus::Queued.is_active());
    assert!(!RunStatus::Cancelling.is_active());
    assert!(!RunStatus::Unknown.is_active());
}

#[test]
fn every_conclusion_string_has_its_conclusion() {
    assert_eq!(Conclusion::from_api("failure"), Conclusion::Failure);
    assert_eq!(Conclusion::from_api("cancelled"), Conclusion::Cancelled);
    assert_eq!(Conclusion::from_api("skipped"), Conclusion::Skipped);
    assert_eq!(Conclusion::from_api("action_required"), Conclusion::ActionRequired);
    assert_eq!(Conclusion::from_api("neutral"), Conclusion::Neutral);
    assert_eq!(Conclusion::from_api("startup_failure"), Conclusion::StartupFailure);
    assert_eq!(Conclusion::from_api("stale"), Conclusion::Stale);
    assert!(Conclusion::StartupFailure.is_failure());
    assert!(!Conclusion::ActionRequired.is_failure());
}

#[test]
fn a_repo_needs_an_owner() {
    let model = |owner: Option<&str>, private: Option<bool>| RepositoryModel {
        owner: owner.map(str::to_owned),
        name: "Pitwall".to_owned(),
        private,
    };
    assert_eq!(Repo::from_model(model(None, Some(true))), None);
    let open = Repo::from_model(model(Some("SoftARV"), None)).unwrap();
    assert_eq!(open.full_name(), "SoftARV/Pitwall");
    assert!(!open.private);
    assert!(Repo::from_model(model(Some("SoftARV"), Some(true))).unwrap().private);
    assert_eq!(open.clone(), open);
}

fn at(secs: i64) -> Timestamp {
    Timestamp { secs, nanos: 0 }
}

#[test]
fn the_budget_counts_down_in_whole_minutes() {
    let rate = RateLimit { remaining: 0, limit: 5000, reset: Some(at(1_000_000)) };
    assert_eq!(rate.resets_in_minutes_at(at(1_000_000 - 119)), 1);
    assert_eq!(rate.resets_in_minutes_at(at(1_000_000 - 120)), 2);
    assert_eq!(rate.resets_in_minutes_at(at(1_000_000 + 5000)), 0);
    assert!(rate.is_exhausted_at(at(999_999)));
    assert!(!rate.is_exhausted_at(at(1_000_000)));
    let some_left = RateLimit { remaining: 1, ..rate };
    assert!(!some_left.is_exhausted_at(at(0)));
    let unknown = RateLimit { reset: None, ..rate };
    assert_eq!(unknown.resets_in_minutes_at(at(0)), 0);
    assert!(!unknown.is_exhausted_at(at(0)));
}

#[test]
fn the_budget_goes_by_the_clock() {
    let long_past = RateLimit { remaining: 0, limit: 5000, reset: Some(at(0)) };
    assert_eq!(long_past.resets_in_minutes(), 0);
    assert!(!long_past.is_exhausted());
    let far_ahead = RateLimit { remaining: 0, limit: 5000, reset: Some(at(8_000_000_000_000)) };
    assert!(far_ahead.resets_in_minutes() > 1_000_000);
    assert!(far_ahead.is_exhausted());
}

fn run_model(status: &str, conclusion: Option<&str>) -> RunModel {
    RunModel {
        id: 7,
        run_number: 128,
        name: "CI".to_owned(),
        head_branch: "main".to_owned(),
        event: "push".to_owned(),
        status: status.to_owned(),
        conclusion: conclusion.map(str::to_owned),
        head_sha: "a1b2c3d4e5".to_owned(),
        commit_message: "Fix it\n\nLonger".to_owned(),
        commit_author: "Jane Doe".to_owned(),
        created_at: at(100),
        updated_at: at(200),
        html_url: "https://github.com/SoftARV/Pitwall/actions/runs/7".to_owned(),
    }
}

#[test]
fn a_run_model_is_narrowed() {
    let run = WorkflowRun::from_model(run_model("completed", Some("failure")), "o/n".to_owned());
    assert_eq!(run.id, 7);
    assert_eq!(run.run_number, 128);
    assert_eq!(run.workflow_name, "CI");
    assert_eq!(run.repo, "o/n");
    assert_eq!(run.status, RunStatus::Completed);
    assert_eq!(run.conclusion, Some(Conclusion::Failure));
    assert_eq!(run.updated_at, at(200));
    let waiting = WorkflowRun::from_model(run_model("waiting", None), "o/n".to_owned());
    assert_eq!(waiting.status, RunStatus::Queued);
    assert_eq!(waiting.conclusion, None);
}

fn job_model() -> JobModel {
    JobModel {
        id: 9,
        name: "build".to_owned(),
        status: "completed".to_owned(),
        conclusion: Some("success".to_owned()),
        started_at: at(10),
        completed_at: Some(at(70)),
        steps: vec![StepModel {
            name: "Set up job".to_owned(),
            number: 1,
            status: "completed".to_owned(),
            conclusion: Some("skipped".to_owned()),
            started_at: Some(at(10)),
            completed_at: None,
        }],
        check_run_url: "https://api.github.com/repos/o/n/check-runs/4321".to_owned(),
    }
}

#[test]
fn a_job_model_is_narrowed() {
    let job = Job::from_model(job_model());
    assert_eq!(job.name, "build");
    assert_eq!(job.started_at, Some(at(10)));
    assert_eq!(job.check_run_id, Some(4321));
    assert_eq!(job.steps.len(), 1);
    assert_eq!(job.steps[0].name, "Set up job");
    assert_eq!(job.steps[0].conclusion, Some(Conclusion::Skipped));
    assert_eq!(job.steps[0].number, 1);
}

#[test]
fn jobs_compare_by_what_they_hold() {
    let a = vec![Job::from_model(job_model())];
    let b = vec![Job::from_model(job_model())];
    assert!(same_jobs(&a, &b));
    let mut later = job_model();
    later.steps[0].completed_at = Some(at(11));
    assert!(!same_jobs(&a, &vec![Job::from_model(later)]));
    assert!(!same_jobs(&a, &vec![]));
}

#[test]
fn the_check_run_id_ends_the_url() {
    assert_eq!(check_run_id("https://api.github.com/x/12"), Some(12));
    assert_eq!(check_run_id("12"), Some(12));
    assert_eq!(check_run_id("https://api.github.com/x/"), None);
    assert_eq!(check_run_id("https://api.github.com/x/abc"), None);
    assert_eq!(check_run_id("x/18446744073709551615"), Some(u64::MAX));
    assert_eq!(check_run_id("x/18446744073709551616"), None);
}

#[test]
fn an_annotation_says_what_and_where() {
    let model = |level: Option<&str>, title: Option<&str>| AnnotationModel {
        level: level.map(str::to_owned),
        title: title.map(str::to_owned),
        message: Some("unused variable".to_owned()),
        path: "src/main.rs".to_owned(),
        start_line: 17,
    };
    let titled = Annotation::from_model(model(Some("failure"), Some("rustc")), "build");
    assert_eq!(titled.level, AnnotationLevel::Failure);
    assert_eq!(titled.headline(), "rustc");
    assert_eq!(titled.context(), "src/main.rs:17 · build");
    let untitled = Annotation::from_model(model(Some("warning"), None), "");
    assert_eq!(untitled.level, AnnotationLevel::Warning);
    assert_eq!(untitled.headline(), "unused variable");
    assert_eq!(untitled.context(), "src/main.rs:17");
    let noted = Annotation::from_model(model(None, Some("")), "build");
    assert_eq!(noted.level, AnnotationLevel::Notice);
    assert_eq!(noted.headline(), "unused variable");
}
