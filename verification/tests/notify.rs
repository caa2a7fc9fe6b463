use pitwall::github::types::{Conclusion, RunStatus, WorkflowRun};
use pitwall::notify::{notification_id, notify_finished, FinishedRuns, Priority, OPEN_RUN_ACTION};
use pitwall::settings::NotifyOn;
use pitwall::time::Timestamp;

fn run(id: u64, conclusion: Option<Conclusion>, updated: i64) -> WorkflowRun {
    WorkflowRun {
        id,
        run_number: 1,
        workflow_name: "CI".to_owned(),
        repo: "o/n".to_owned(),
        head_branch: "main".to_owned(),
        event: "push".to_owned(),
        status: if conclusion.is_some() { RunStatus::Completed } else { RunStatus::InProgress },
        conclusion,
        head_sha: "a1b2c3d".to_owned(),
        commit_message: "m".to_owned(),
        commit_author: "j".to_owned(),
        created_at: Timestamp { secs: 1, nanos: 0 },
        updated_at: Timestamp { secs: updated, nanos: 0 },
        html_url: format!("https://github.com/o/n/actions/runs/{id}"),
    }
}

#[test]
fn a_notification_says_how_a_run_went() {
    let failed = notify_finished(&run(7, Some(Conclusion::Failure), 2), Conclusion::Failure);
    assert_eq!(failed.id, "run-7");
    assert_eq!(failed.title, "Run failed");
    assert_eq!(failed.body, "CI · o/n · main");
    assert_eq!(failed.priority, Priority::High);
    assert_eq!(failed.action, "app.open-run");
    assert_eq!(failed.action, OPEN_RUN_ACTION);
    assert_eq!(failed.target, "https://github.com/o/n/actions/runs/7");
    let title = |c: Conclusion| notify_finished(&run(7, Some(c), 2), c);
    assert_eq!(title(Conclusion::TimedOut).title, "Run failed");
    assert_eq!(title(Conclusion::Cancelled).title, "Run cancelled");
    assert_eq!(title(Conclusion::Success).title, "Run passed");
    assert_eq!(title(Conclusion::Skipped).title, "Run finished");
    assert_eq!(title(Conclusion::Success).priority, Priority::Normal);
    assert_eq!(notification_id(0), "run-0");
    assert_eq!(notification_id(u64::MAX), "run-18446744073709551615");
}

#[test]
fn a_baseline_is_silent_and_news_is_told_once() {
    let mut seen = FinishedRuns::new();
    let before = vec![run(1, Some(Conclusion::Failure), 10), run(2, None, 11)];
    assert!(seen.observe(&before, NotifyOn::Failures, true).is_empty());
    assert!(seen.observe(&before, NotifyOn::Failures, false).is_empty());
    let after = vec![run(1, Some(Conclusion::Failure), 10), run(2, Some(Conclusion::Failure), 12)];
    let alerts = seen.observe(&after, NotifyOn::Failures, false);
    assert_eq!(alerts.len(), 1);
    assert_eq!(alerts[0].id, "run-2");
    assert!(seen.observe(&after, NotifyOn::Failures, false).is_empty());
}

#[test]
fn a_rerun_that_finishes_is_news() {
    let mut seen = FinishedRuns::new();
    seen.observe(&vec![run(1, Some(Conclusion::Failure), 10)], NotifyOn::All, true);
    let again = seen.observe(&vec![run(1, Some(Conclusion::Failure), 20)], NotifyOn::All, false);
    assert_eq!(again.len(), 1);
    let fixed = seen.observe(&vec![run(1, Some(Conclusion::Success), 20)], NotifyOn::All, false);
    assert_eq!(fixed[0].title, "Run passed");
}

#[test]
fn the_preference_filters_but_the_record_moves_on() {
    let mut seen = FinishedRuns::new();
    let passed = vec![run(1, Some(Conclusion::Success), 10)];
    assert!(seen.observe(&passed, NotifyOn::Failures, false).is_empty());
    assert!(seen.observe(&passed, NotifyOn::All, false).is_empty());
    let failed = vec![run(2, Some(Conclusion::Failure), 10)];
    assert!(seen.observe(&failed, NotifyOn::Off, false).is_empty());
    assert!(seen.observe(&failed, NotifyOn::Failures, false).is_empty());
}

#[test]
fn a_run_listed_twice_is_told_once() {
    let mut seen = FinishedRuns::new();
    let twice = vec![
        run(3, None, 9),
        run(3, Some(Conclusion::Failure), 10),
        run(3, Some(Conclusion::Failure), 10),
    ];
    let alerts = seen.observe(&twice, NotifyOn::Failures, false);
    assert_eq!(alerts.len(), 1);
    assert_eq!(alerts[0].id, "run-3");
}
