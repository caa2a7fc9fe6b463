use pitwall::app::pages::list_page;
use pitwall::app::session::{boot, sign_in, BootStep, SignIn, SignInEvent, SignInStep};
use pitwall::app::{AppModel, AppMsg, CommandMsg, Effect, OnboardingPage, RECENT_CAP};
use pitwall::github::client::{
    ConnectError, Connection, DeviceFlow, Poll, RepoRuns, RunsOutcome,
};
use pitwall::github::types::{Conclusion, RateLimit, RunAction, RunStatus, WorkflowRun};
use pitwall::runs;
use pitwall::settings::{ColorScheme, NotifyOn, Settings, Theme};
use pitwall::time::Timestamp;

const NOW: Timestamp = Timestamp { secs: 1_000, nanos: 0 };

fn settings(watched: &[&str]) -> Settings {
    let mut settings = Settings::default();
    settings.watched = watched.iter().map(|name| (*name).to_owned()).collect();
    settings
}

fn connection() -> Connection {
    Connection {
        login: "jane".to_owned(),
        rate: RateLimit { remaining: 4000, limit: 5000, reset: None },
    }
}

fn connected() -> CommandMsg {
    CommandMsg::Connected(Box::new(Ok(connection())))
}

fn refused(error: ConnectError) -> CommandMsg {
    CommandMsg::Connected(Box::new(Err(error)))
}

fn run(id: u64, status: RunStatus, conclusion: Option<Conclusion>, created: i64) -> WorkflowRun {
    WorkflowRun {
        id,
        run_number: 1,
        workflow_name: "CI".to_owned(),
        repo: "o/n".to_owned(),
        head_branch: "main".to_owned(),
        event: "push".to_owned(),
        status,
        conclusion,
        head_sha: "a1b2c3d".to_owned(),
        commit_message: "m".to_owned(),
        commit_author: "j".to_owned(),
        created_at: Timestamp { secs: created, nanos: 0 },
        updated_at: Timestamp { secs: created + 10, nanos: 0 },
        html_url: "https://github.com/o/n".to_owned(),
    }
}

fn ready(watched: &[&str]) -> AppModel {
    let (mut model, _) = AppModel::init(settings(watched));
    model.update_cmd(connected());
    model
}

fn fresh(repo: &str, etag: &str, runs: Vec<WorkflowRun>) -> RepoRuns {
    RepoRuns {
        repo: repo.to_owned(),
        outcome: RunsOutcome::Fresh { etag: Some(etag.to_owned()), runs },
    }
}

fn unchanged(repo: &str) -> RepoRuns {
    RepoRuns { repo: repo.to_owned(), outcome: RunsOutcome::NotModified }
}

fn broken(repo: &str, message: &str) -> RepoRuns {
    RepoRuns { repo: repo.to_owned(), outcome: RunsOutcome::Failed(message.to_owned()) }
}

fn polled(repos: Vec<RepoRuns>) -> CommandMsg {
    CommandMsg::Polled(Poll { repos, rate: None })
}

fn notified(effects: &[Effect]) -> Vec<String> {
    effects
        .iter()
        .filter_map(|effect| match effect {
            Effect::Notify(notification) => Some(notification.id.clone()),
            _ => None,
        })
        .collect()
}

fn fetched(effects: &[Effect]) -> Vec<(String, Option<String>)> {
    effects
        .iter()
        .filter_map(|effect| match effect {
            Effect::FetchRuns(targets) => Some(targets),
            _ => None,
        })
        .flatten()
        .map(|target| (target.repo.clone(), target.etag.clone()))
        .collect()
}

fn shown(model: &AppModel) -> Vec<(u64, RunStatus)> {
    model.rows().iter().map(|row| (row.id(), row.run.status)).collect()
}

#[test]
fn startup_looks_for_a_token() {
    let (model, effects) = AppModel::init(settings(&["o/n"]));
    assert_eq!(effects.len(), 1);
    assert!(matches!(effects[0], Effect::Boot));
    assert_eq!(model.state_page(), "loading");
    assert_eq!(model.app_page(), "loading");
    assert_eq!(model.header_subtitle(), "");
    assert!(!model.is_signed_in());
    assert!(!model.is_polling());
}

#[test]
fn the_keyring_decides_startup() {
    assert!(matches!(boot(Ok(Some("t".to_owned()))), BootStep::Connect(token) if token == "t"));
    assert!(matches!(boot(Ok(None)), BootStep::Report(CommandMsg::NoToken)));
    match boot(Err("locked".to_owned())) {
        BootStep::Report(CommandMsg::Connected(result)) => {
            let error = result.unwrap_err();
            assert_eq!(error.message(), "Couldn't read the keyring: locked");
            assert!(!error.is_auth());
        }
        other => panic!("{other:?}"),
    }
}

#[test]
fn the_device_flow_goes_step_by_step() {
    let flow = DeviceFlow { user_code: "AB-12".to_owned(), verification_uri: "u".to_owned() };
    match sign_in(3, SignInEvent::Started(Ok(flow))) {
        SignInStep::Wait { report: CommandMsg::DeviceCode { generation, user_code, .. }, flow } => {
            assert_eq!((generation, user_code.as_str()), (3, "AB-12"));
            assert_eq!(flow.verification_uri, "u");
        }
        other => panic!("{other:?}"),
    }
    let step = sign_in(3, SignInEvent::Authorised(Ok("token".to_owned())));
    assert!(matches!(step, SignInStep::StoreAndConnect(token) if token == "token"));
    let ends = vec![
        SignInEvent::Started(Err(ConnectError::Other("x".to_owned()))),
        SignInEvent::Authorised(Err(ConnectError::Other("x".to_owned()))),
        SignInEvent::Connected(Err(ConnectError::Other("x".to_owned()))),
    ];
    for event in ends {
        match sign_in(3, event) {
            SignInStep::Finish(CommandMsg::DeviceResult { generation, result }) => {
                assert_eq!(generation, 3);
                assert_eq!(result.unwrap_err().message(), "x");
            }
            other => panic!("{other:?}"),
        }
    }
    match sign_in(4, SignInEvent::Connected(Ok(connection()))) {
        SignInStep::Finish(CommandMsg::DeviceResult { result, .. }) => assert!(result.is_ok()),
        other => panic!("{other:?}"),
    }
}

#[test]
fn connecting_starts_the_poll() {
    let (mut model, _) = AppModel::init(settings(&["o/n", "a/b"]));
    let effects = model.update_cmd(connected());
    assert!(matches!(effects[0], Effect::StartTimer(45)));
    assert_eq!(fetched(&effects), vec![("o/n".to_owned(), None), ("a/b".to_owned(), None)]);
    assert_eq!(model.state_page(), "app");
    assert_eq!(model.app_page(), "loading");
    assert_eq!(model.header_subtitle(), "Signed in as jane");
    assert!(model.is_signed_in());
    assert!(model.is_polling());
    // A second connect does not stack a second timer.
    let again = model.update_cmd(connected());
    assert!(again.iter().all(|effect| !matches!(effect, Effect::StartTimer(_))));
}

#[test]
fn nothing_watched_means_nothing_polled() {
    let (mut model, _) = AppModel::init(settings(&[]));
    assert!(model.update_cmd(connected()).is_empty());
    assert_eq!(model.app_page(), "no-repos");
    assert!(!model.is_polling());
    assert!(model.update(AppMsg::Refresh, NOW).is_empty());
}

#[test]
fn an_invalid_token_leads_to_onboarding() {
    let (mut model, _) = AppModel::init(settings(&["o/n"]));
    let effects = model.update_cmd(refused(ConnectError::Auth("expired".to_owned())));
    assert!(matches!(&effects[0], Effect::ModalToast(reason) if reason == "expired"));
    assert_eq!(model.state_page(), "welcome");
    let modal = model.onboarding().unwrap();
    assert_eq!(modal.page, OnboardingPage::Intro);
    assert_eq!(modal.code, "");
    assert!(model.connection().is_none());
}

#[test]
fn being_offline_leads_to_the_disconnected_page() {
    let (mut model, _) = AppModel::init(settings(&["o/n"]));
    model.update_cmd(CommandMsg::NoToken);
    assert!(model.onboarding().is_some());
    let effects = model.update_cmd(refused(ConnectError::Offline("no net".to_owned())));
    assert!(effects.is_empty());
    assert_eq!(model.state_page(), "disconnected");
    assert_eq!(model.disconnected_reason(), "no net");
    assert!(model.onboarding().is_none());
    let effects = model.update(AppMsg::Retry, NOW);
    assert!(matches!(effects[0], Effect::Boot));
    assert_eq!(model.state_page(), "loading");
    assert_eq!(model.disconnected_reason(), "");
}

fn code(generation: u64) -> CommandMsg {
    CommandMsg::DeviceCode {
        generation,
        user_code: "AB-12".to_owned(),
        verification_uri: "https://github.com/login/device".to_owned(),
    }
}

fn result(generation: u64, result: Result<Connection, ConnectError>) -> CommandMsg {
    CommandMsg::DeviceResult { generation, result: Box::new(result) }
}

#[test]
fn signing_in_shows_the_code() {
    let (mut model, _) = AppModel::init(settings(&["o/n"]));
    model.update_cmd(CommandMsg::NoToken);
    assert!(model.update(AppMsg::OpenVerification, NOW).is_empty());
    let effects = model.update(AppMsg::SignIn, NOW);
    assert!(matches!(effects[0], Effect::StartDeviceFlow { generation: 1 }));
    assert_eq!(model.onboarding().unwrap().code, "…");
    assert_eq!(model.onboarding().unwrap().page, OnboardingPage::Awaiting);
    let effects = model.update_cmd(code(1));
    assert!(matches!(&effects[0], Effect::CopyText(code) if code == "AB-12"));
    assert!(matches!(&effects[1], Effect::OpenUri(uri) if uri == "https://github.com/login/device"));
    assert_eq!(model.onboarding().unwrap().code, "AB-12");
    let effects = model.update(AppMsg::CopyCode, NOW);
    assert!(matches!(&effects[0], Effect::CopyText(code) if code == "AB-12"));
    assert!(matches!(&effects[1], Effect::ModalToast(toast) if toast == "Code copied"));
    let effects = model.update(AppMsg::OpenVerification, NOW);
    assert!(matches!(&effects[0], Effect::OpenUri(uri) if uri == "https://github.com/login/device"));
    model.update_cmd(result(1, Ok(connection())));
    assert!(model.onboarding().is_none());
    assert_eq!(model.state_page(), "app");
}

#[test]
fn a_cancelled_flow_is_ignored() {
    let (mut model, _) = AppModel::init(settings(&["o/n"]));
    model.update_cmd(CommandMsg::NoToken);
    model.update(AppMsg::SignIn, NOW);
    model.update_cmd(code(1));
    assert!(model.update(AppMsg::CancelAuth, NOW).is_empty());
    assert_eq!(model.auth_generation(), 2);
    assert_eq!(model.onboarding().unwrap().page, OnboardingPage::Intro);
    assert!(model.update_cmd(code(1)).is_empty());
    assert!(model.update_cmd(result(1, Ok(connection()))).is_empty());
    assert_eq!(model.state_page(), "welcome");
    assert!(model.update(AppMsg::OpenVerification, NOW).is_empty());
    model.update(AppMsg::SignIn, NOW);
    assert!(model.update_cmd(result(2, Ok(connection()))).is_empty());
    assert!(model.connection().is_none());
}

#[test]
fn a_failed_flow_returns_to_the_intro() {
    let (mut model, _) = AppModel::init(settings(&["o/n"]));
    model.update_cmd(CommandMsg::NoToken);
    model.update(AppMsg::SignIn, NOW);
    model.update_cmd(code(1));
    let effects = model.update_cmd(result(1, Err(ConnectError::Other("denied".to_owned()))));
    assert!(matches!(&effects[0], Effect::ModalToast(reason) if reason == "denied"));
    assert_eq!(model.onboarding().unwrap().page, OnboardingPage::Intro);
    assert_eq!(model.state_page(), "welcome");
}

#[test]
fn signing_out_forgets_the_connection() {
    let mut model = ready(&["o/n"]);
    assert!(matches!(model.update(AppMsg::SignOut, NOW)[0], Effect::ClearToken));
    assert!(model.is_signed_in());
    assert!(model.update_cmd(CommandMsg::TokenCleared).is_empty());
    assert!(!model.is_signed_in());
    assert!(model.connection().is_none());
    assert_eq!(model.state_page(), "welcome");
    assert!(model.update(AppMsg::Refresh, NOW).is_empty());
    assert!(model.update(AppMsg::EditWatchlist, NOW).is_empty());
}

#[test]
fn the_header_counts_the_runs() {
    let mut model = ready(&["o/n"]);
    model.update_cmd(CommandMsg::RunsLoaded(vec![run(1, RunStatus::Queued, None, 1)]));
    assert_eq!(model.header_subtitle(), "1 run · 1 running");
    model.update_cmd(CommandMsg::RunsLoaded(vec![
        run(1, RunStatus::Completed, Some(Conclusion::Failure), 1),
        run(2, RunStatus::Completed, Some(Conclusion::TimedOut), 2),
        run(3, RunStatus::InProgress, None, 3),
    ]));
    assert_eq!(model.header_subtitle(), "3 runs · 2 failing · 1 running");
    assert_eq!(model.app_page(), "runs");
    model.update_cmd(CommandMsg::RunsLoaded(vec![run(
        1,
        RunStatus::Completed,
        Some(Conclusion::Success),
        1,
    )]));
    assert_eq!(model.header_subtitle(), "1 run");
    model.update_cmd(CommandMsg::RunsLoaded(vec![]));
    assert_eq!(model.header_subtitle(), "Signed in as jane");
    assert_eq!(model.app_page(), "no-runs");
}

#[test]
fn a_hidden_window_does_not_poll() {
    let mut model = ready(&["o/n"]);
    let effects = model.update(AppMsg::SuspendedChanged(true), NOW);
    assert_eq!(effects.len(), 1);
    assert!(matches!(effects[0], Effect::StopTimer));
    assert!(model.update(AppMsg::SuspendedChanged(true), NOW).is_empty());
    let effects = model.update(AppMsg::SuspendedChanged(false), NOW);
    assert!(matches!(effects[0], Effect::StartTimer(45)));
    assert_eq!(fetched(&effects).len(), 1);
    let effects = model.update(AppMsg::SuspendedChanged(false), NOW);
    assert_eq!(effects.len(), 1);
    assert_eq!(fetched(&effects).len(), 1);
}

#[test]
fn polling_is_conditional() {
    let mut model = ready(&["o/n", "a/b"]);
    model.update_cmd(polled(vec![
        fresh("o/n", "\"e1\"", vec![run(1, RunStatus::InProgress, None, 5)]),
        fresh("a/b", "\"e2\"", vec![run(2, RunStatus::InProgress, None, 9)]),
    ]));
    assert_eq!(shown(&model), vec![(2, RunStatus::InProgress), (1, RunStatus::InProgress)]);
    let effects = model.update(AppMsg::Refresh, NOW);
    assert_eq!(
        fetched(&effects),
        vec![
            ("o/n".to_owned(), Some("\"e1\"".to_owned())),
            ("a/b".to_owned(), Some("\"e2\"".to_owned())),
        ]
    );
    let effects = model.update_cmd(polled(vec![unchanged("o/n"), broken("a/b", "404")]));
    assert!(matches!(effects[0], Effect::UpdateRows));
    assert_eq!(shown(&model).len(), 2);
    let effects =
        model.update_cmd(polled(vec![fresh("o/n", "\"e3\"", vec![]), unchanged("a/b")]));
    assert!(matches!(effects[0], Effect::RebuildRows));
    assert_eq!(shown(&model), vec![(2, RunStatus::InProgress)]);
}

#[test]
fn a_poll_refreshes_the_budget_and_a_spent_one_pauses() {
    let mut model = ready(&["o/n"]);
    let spent = RateLimit {
        remaining: 0,
        limit: 5000,
        reset: Some(Timestamp { secs: 2_000, nanos: 0 }),
    };
    model.update_cmd(CommandMsg::Polled(Poll { repos: vec![unchanged("o/n")], rate: Some(spent) }));
    assert_eq!(model.connection().unwrap().rate, spent);
    assert!(model.update(AppMsg::Refresh, NOW).is_empty());
    let later = Timestamp { secs: 2_000, nanos: 0 };
    assert_eq!(fetched(&model.update(AppMsg::Refresh, later)).len(), 1);
}

#[test]
fn a_failure_is_announced_once() {
    let mut model = ready(&["o/n"]);
    let old = run(1, RunStatus::Completed, Some(Conclusion::Failure), 1);
    let effects = model.update_cmd(polled(vec![fresh(
        "o/n",
        "e",
        vec![old.clone(), run(2, RunStatus::InProgress, None, 2)],
    )]));
    assert!(notified(&effects).is_empty());
    let next = vec![old, run(2, RunStatus::Completed, Some(Conclusion::Failure), 2)];
    let effects = model.update_cmd(polled(vec![fresh("o/n", "f", next)]));
    assert_eq!(notified(&effects), vec!["run-2"]);
    let effects = model.update_cmd(polled(vec![unchanged("o/n")]));
    assert!(notified(&effects).is_empty());
}

#[test]
fn the_notification_level_is_a_preference() {
    let mut model = ready(&["o/n"]);
    model.update_cmd(CommandMsg::RunsLoaded(vec![]));
    let effects = model.update(AppMsg::SetNotify(NotifyOn::All), NOW);
    assert!(matches!(&effects[0], Effect::SaveSettings(file) if file.notify.as_deref() == Some("all")));
    let passed = run(1, RunStatus::Completed, Some(Conclusion::Success), 1);
    let effects = model.update_cmd(CommandMsg::RunsLoaded(vec![passed]));
    assert_eq!(notified(&effects), vec!["run-1"]);
    model.update(AppMsg::SetNotify(NotifyOn::Off), NOW);
    let failed = run(2, RunStatus::Completed, Some(Conclusion::Failure), 1);
    let effects = model.update_cmd(CommandMsg::RunsLoaded(vec![failed]));
    assert!(notified(&effects).is_empty());
}

#[test]
fn a_transient_failure_keeps_the_runs() {
    let mut model = ready(&["o/n"]);
    model.update_cmd(CommandMsg::RunsLoaded(vec![run(1, RunStatus::Queued, None, 1)]));
    model.update(AppMsg::ManualRefresh, NOW);
    assert!(model.is_refreshing());
    let effects = model.update_cmd(polled(vec![broken("o/n", "offline"), broken("a/b", "also")]));
    assert!(matches!(&effects[0], Effect::Toast(t) if t == "Couldn't refresh: offline"));
    assert!(!model.is_refreshing());
    assert_eq!(shown(&model).len(), 1);
    assert_eq!(model.state_page(), "app");
}

#[test]
fn a_first_poll_that_fails_disconnects() {
    let mut model = ready(&["o/n"]);
    let effects = model.update_cmd(CommandMsg::RunsFailed("offline".to_owned()));
    assert!(matches!(effects[0], Effect::StopTimer));
    assert_eq!(model.disconnected_reason(), "offline");
    assert!(!model.is_polling());
}

#[test]
fn a_new_watch_list_starts_from_scratch() {
    let mut model = ready(&["o/n"]);
    model.update_cmd(polled(vec![fresh("o/n", "e", vec![run(1, RunStatus::Queued, None, 1)])]));
    let effects = model.update(AppMsg::EditWatchlist, NOW);
    assert!(matches!(&effects[0], Effect::OpenPicker(names) if *names == vec!["o/n"]));
    assert!(model.is_picker_open());
    let effects = model.update(AppMsg::WatchlistSaved(vec!["a/b".to_owned()]), NOW);
    assert!(matches!(&effects[0], Effect::SaveSettings(file) if file.repos.as_deref() == Some("a/b")));
    assert!(matches!(effects[1], Effect::RebuildRows));
    assert!(matches!(effects[2], Effect::StopTimer));
    assert!(matches!(effects[3], Effect::StartTimer(45)));
    assert_eq!(fetched(&effects), vec![("a/b".to_owned(), None)]);
    assert!(!model.is_picker_open());
    assert!(shown(&model).is_empty());
    assert_eq!(model.app_page(), "loading");
    assert_eq!(model.settings().watched, vec!["a/b"]);
    let effects = model.update(AppMsg::WatchlistSaved(vec![]), NOW);
    assert!(matches!(effects[2], Effect::StopTimer));
    assert_eq!(effects.len(), 3);
    assert_eq!(model.app_page(), "no-repos");
}

#[test]
fn a_cancel_shows_until_the_run_completes() {
    let mut model = ready(&["o/n"]);
    let busy = run(1, RunStatus::InProgress, None, 1);
    model.update_cmd(polled(vec![fresh("o/n", "e", vec![busy.clone()])]));
    model.update(AppMsg::ShowDetails(1), NOW);
    let effects = model.update(AppMsg::Act { id: 1, action: RunAction::Cancel }, NOW);
    assert!(matches!(effects[0], Effect::UpdateRows));
    match &effects[1] {
        Effect::Act { repo, id, action } => {
            assert_eq!((repo.as_str(), *id, *action), ("o/n", 1, RunAction::Cancel))
        }
        other => panic!("{other:?}"),
    }
    assert!(matches!(&effects[2], Effect::RefreshDetails(r) if r.status == RunStatus::Cancelling));
    assert_eq!(shown(&model), vec![(1, RunStatus::Cancelling)]);
    // Neither a second cancel nor a re-run is taken meanwhile.
    assert!(model.update(AppMsg::Act { id: 1, action: RunAction::Cancel }, NOW).is_empty());
    assert!(model.update(AppMsg::Act { id: 1, action: RunAction::Rerun }, NOW).is_empty());
    let effects = model.update_cmd(CommandMsg::ActionDone {
        repo: "o/n".to_owned(),
        id: 1,
        outcome: Ok(()),
    });
    assert_eq!(fetched(&effects).len(), 1);
    assert!(matches!(effects[1], Effect::RefreshLater(3)));
    assert!(matches!(effects[2], Effect::RefreshLater(9)));
    model.update_cmd(polled(vec![fresh("o/n", "f", vec![busy])]));
    assert_eq!(shown(&model), vec![(1, RunStatus::Cancelling)]);
    let stopped = run(1, RunStatus::Completed, Some(Conclusion::Cancelled), 1);
    model.update_cmd(polled(vec![fresh("o/n", "g", vec![stopped])]));
    assert_eq!(shown(&model), vec![(1, RunStatus::Completed)]);
}

#[test]
fn a_refused_cancel_is_undone() {
    let mut model = ready(&["o/n"]);
    model.update_cmd(polled(vec![fresh("o/n", "e", vec![run(1, RunStatus::Queued, None, 1)])]));
    model.update(AppMsg::Act { id: 1, action: RunAction::Cancel }, NOW);
    let effects = model.update_cmd(CommandMsg::ActionDone {
        repo: "o/n".to_owned(),
        id: 1,
        outcome: Err("not allowed".to_owned()),
    });
    assert!(matches!(&effects[1], Effect::Toast(t) if t == "not allowed"));
    assert_eq!(shown(&model), vec![(1, RunStatus::Queued)]);
    // The repo is asked for afresh.
    assert_eq!(fetched(&effects), vec![("o/n".to_owned(), None)]);
}

#[test]
fn a_rerun_is_queued_at_once() {
    let mut model = ready(&["o/n"]);
    let failed = run(1, RunStatus::Completed, Some(Conclusion::Failure), 1);
    let passed = run(2, RunStatus::Completed, Some(Conclusion::Success), 2);
    model.update_cmd(polled(vec![fresh("o/n", "e", vec![failed, passed])]));
    assert!(model.update(AppMsg::Act { id: 2, action: RunAction::RerunFailed }, NOW).is_empty());
    assert!(model.update(AppMsg::Act { id: 2, action: RunAction::Cancel }, NOW).is_empty());
    assert!(model.update(AppMsg::Act { id: 9, action: RunAction::Rerun }, NOW).is_empty());
    let effects = model.update(AppMsg::Act { id: 1, action: RunAction::RerunFailed }, NOW);
    assert!(matches!(effects[1], Effect::Act { id: 1, action: RunAction::RerunFailed, .. }));
    assert_eq!(shown(&model), vec![(2, RunStatus::Completed), (1, RunStatus::Queued)]);
    // An unchanged list keeps it queued.
    model.update_cmd(polled(vec![unchanged("o/n")]));
    assert_eq!(shown(&model), vec![(2, RunStatus::Completed), (1, RunStatus::Queued)]);
    // It is news again once it finishes anew.
    let mut again = run(1, RunStatus::Completed, Some(Conclusion::Failure), 1);
    again.updated_at = Timestamp { secs: 99, nanos: 0 };
    let effects = model.update_cmd(polled(vec![fresh("o/n", "f", vec![again])]));
    assert_eq!(notified(&effects), vec!["run-1"]);
}

#[test]
fn the_detail_page_stays_live() {
    let mut model = ready(&["o/n"]);
    model.update_cmd(CommandMsg::RunsLoaded(vec![run(1, RunStatus::Queued, None, 1)]));
    assert!(model.update(AppMsg::ShowDetails(9), NOW).is_empty());
    let effects = model.update(AppMsg::ShowDetails(1), NOW);
    assert!(matches!(&effects[0], Effect::OpenDetails(run) if run.id == 1));
    let effects =
        model.update_cmd(CommandMsg::RunsLoaded(vec![run(1, RunStatus::InProgress, None, 1)]));
    assert!(matches!(&effects[1], Effect::RefreshDetails(r) if r.status == RunStatus::InProgress));
    model.update(AppMsg::DetailsClosed, NOW);
    let effects = model.update_cmd(CommandMsg::RunsLoaded(vec![run(1, RunStatus::Queued, None, 1)]));
    assert_eq!(effects.len(), 1);
}

#[test]
fn preferences_are_saved_and_applied() {
    let mut model = ready(&["o/n"]);
    let effects = model.update(AppMsg::SetTheme(Theme::Dark), NOW);
    assert!(matches!(&effects[0], Effect::SaveSettings(file) if file.theme.as_deref() == Some("dark")));
    assert!(matches!(effects[1], Effect::ApplyTheme(ColorScheme::ForceDark)));
    let effects = model.update(AppMsg::SetPollInterval(30), NOW);
    assert!(matches!(&effects[0], Effect::SaveSettings(f) if f.interval.as_deref() == Some("30")));
    assert!(matches!(effects[1], Effect::StopTimer));
    assert!(matches!(effects[2], Effect::StartTimer(30)));
    assert!(model.update(AppMsg::SetPollInterval(0), NOW).is_empty());
    model.update(AppMsg::SuspendedChanged(true), NOW);
    assert_eq!(model.update(AppMsg::SetPollInterval(60), NOW).len(), 1);
}

#[test]
fn the_about_dialog_tells_the_budget() {
    let (mut model, _) = AppModel::init(settings(&[]));
    let info = |effects: Vec<Effect>| match effects.into_iter().next() {
        Some(Effect::ShowAbout(info)) => info,
        other => panic!("{other:?}"),
    };
    assert_eq!(info(model.update(AppMsg::ShowAbout, NOW)), "Not connected");
    model.update_cmd(connected());
    assert_eq!(
        info(model.update(AppMsg::ShowAbout, NOW)),
        "Signed in as jane\nRate limit: 4000 / 5000 requests remaining this hour"
    );
    let effects = model.update(AppMsg::OpenInBrowser("https://x".to_owned()), NOW);
    assert!(matches!(&effects[0], Effect::OpenUri(uri) if uri == "https://x"));
}

#[test]
fn the_newest_runs_come_first() {
    let ids = |runs: Vec<WorkflowRun>| runs.iter().map(|run| run.id).collect::<Vec<u64>>();
    let unsorted = vec![
        run(1, RunStatus::Queued, None, 5),
        run(2, RunStatus::Queued, None, 9),
        run(3, RunStatus::Queued, None, 5),
        run(4, RunStatus::Queued, None, 7),
    ];
    assert_eq!(ids(runs::sort_runs(unsorted)), vec![2, 4, 1, 3]);
}

#[test]
fn runs_are_searched_and_grouped() {
    let mut other = run(2, RunStatus::Queued, None, 2);
    other.repo = "SoftARV/Dockyard".to_owned();
    other.workflow_name = "Release".to_owned();
    other.head_branch = "feature/Search".to_owned();
    let all = vec![run(1, RunStatus::Queued, None, 1), other];
    let found = |query: &str| {
        runs::search(&all, query).iter().map(|run| run.id).collect::<Vec<u64>>()
    };
    assert_eq!(found(""), vec![1, 2]);
    assert_eq!(found("dockYARD"), vec![2]);
    assert_eq!(found("ci"), vec![1]);
    assert_eq!(found("SEARCH"), vec![2]);
    assert_eq!(found("push"), Vec::<u64>::new());
    assert!(runs::texts_match("a", "b", "c", "b"));
    assert_eq!(runs::history(&all, "SoftARV/Dockyard").len(), 1);
    assert_eq!(runs::history(&all, "softarv/dockyard").len(), 0);
}

#[test]
fn a_window_hidden_before_connecting_waits() {
    let (mut model, _) = AppModel::init(settings(&["o/n"]));
    assert!(model.update(AppMsg::SuspendedChanged(true), NOW).is_empty());
    assert!(model.update_cmd(connected()).is_empty());
    assert_eq!(model.state_page(), "app");
    assert!(!model.is_polling());
    assert!(model.update(AppMsg::Refresh, NOW).is_empty());
    let saved = model.update(AppMsg::WatchlistSaved(vec!["a/b".to_owned()]), NOW);
    assert_eq!(saved.len(), 2);
    assert!(fetched(&saved).is_empty());
    assert!(!model.is_polling());
    let done = CommandMsg::ActionDone { repo: "a/b".to_owned(), id: 1, outcome: Ok(()) };
    assert!(model.update_cmd(done).is_empty());
    assert_eq!(fetched(&model.update(AppMsg::ManualRefresh, NOW)), vec![("a/b".to_owned(), None)]);
    let effects = model.update(AppMsg::SuspendedChanged(false), NOW);
    assert!(matches!(effects[0], Effect::StartTimer(45)));
    assert_eq!(fetched(&effects), vec![("a/b".to_owned(), None)]);
    assert!(model.is_polling());
}

#[test]
fn a_failure_after_a_new_watch_list_is_announced() {
    let mut model = ready(&["o/n"]);
    let at_work = run(7, RunStatus::InProgress, None, 100);
    model.update_cmd(polled(vec![fresh("o/n", "e", vec![at_work])]));
    model.update(AppMsg::WatchlistSaved(vec!["a/b".to_owned(), "o/n".to_owned()]), NOW);
    let failed = run(7, RunStatus::Completed, Some(Conclusion::Failure), 100);
    let mut old = run(8, RunStatus::Completed, Some(Conclusion::Failure), 50);
    old.repo = "a/b".to_owned();
    let effects = model.update_cmd(polled(vec![
        fresh("a/b", "e", vec![old]),
        fresh("o/n", "f", vec![failed]),
    ]));
    assert_eq!(notified(&effects), vec!["run-7".to_owned(), "run-8".to_owned()]);
    let mut next = run(9, RunStatus::Completed, Some(Conclusion::Failure), 200);
    next.repo = "a/b".to_owned();
    let effects = model.update_cmd(polled(vec![fresh("a/b", "g", vec![next]), unchanged("o/n")]));
    assert_eq!(notified(&effects), vec!["run-9".to_owned()]);
}

#[test]
fn only_the_first_poll_is_silent() {
    let mut model = ready(&["a/b", "o/n"]);
    model.update_cmd(polled(vec![broken("a/b", "offline"), fresh("o/n", "e", vec![])]));
    let mut old = run(8, RunStatus::Completed, Some(Conclusion::Failure), 50);
    old.repo = "a/b".to_owned();
    let new = run(7, RunStatus::Completed, Some(Conclusion::Failure), 60);
    let effects =
        model.update_cmd(polled(vec![fresh("a/b", "e", vec![old]), fresh("o/n", "f", vec![new])]));
    assert_eq!(notified(&effects), vec!["run-7".to_owned(), "run-8".to_owned()]);
    model.update_cmd(connected());
    let again = run(9, RunStatus::Completed, Some(Conclusion::Failure), 90);
    let effects = model.update_cmd(polled(vec![fresh("o/n", "g", vec![again])]));
    assert!(notified(&effects).is_empty());
}

#[test]
fn reordered_runs_update_in_place() {
    let mut model = ready(&["o/n"]);
    let one = || run(1, RunStatus::InProgress, None, 1);
    let two = || run(2, RunStatus::InProgress, None, 2);
    let effects = model.update_cmd(CommandMsg::RunsLoaded(vec![one(), two()]));
    assert!(matches!(effects[0], Effect::RebuildRows));
    let effects = model.update_cmd(CommandMsg::RunsLoaded(vec![two(), one()]));
    assert!(matches!(effects[0], Effect::UpdateRows));
    assert_eq!(shown(&model), vec![(2, RunStatus::InProgress), (1, RunStatus::InProgress)]);
    let effects = model.update_cmd(CommandMsg::RunsLoaded(vec![two(), two()]));
    assert!(matches!(effects[0], Effect::RebuildRows));
    let effects = model.update_cmd(CommandMsg::RunsLoaded(vec![two()]));
    assert!(matches!(effects[0], Effect::RebuildRows));
}

#[test]
fn the_model_is_searched_and_counted() {
    let mut model = ready(&["o/n"]);
    let bad = run(1, RunStatus::Completed, Some(Conclusion::Failure), 1);
    let mut good = run(2, RunStatus::Completed, Some(Conclusion::Success), 2);
    good.head_branch = "Feature".to_owned();
    model.update_cmd(CommandMsg::RunsLoaded(vec![bad, good]));
    assert_eq!(model.failing_badge(), 1);
    assert_eq!(model.watched(), &vec!["o/n".to_owned()]);
    let ids = |runs: Vec<WorkflowRun>| runs.iter().map(|run| run.id).collect::<Vec<u64>>();
    assert_eq!(ids(model.search("feat")), vec![2]);
    assert_eq!(model.all_runs().len(), 2);
    assert_eq!(list_page(""), "tabs");
    assert_eq!(list_page("f"), "results");
}

#[test]
fn only_a_wanted_connection_is_taken() {
    let (mut model, _) = AppModel::init(settings(&[]));
    assert!(model.takes_connection(&connected()));
    assert!(!model.takes_connection(&refused(ConnectError::Offline("no".to_owned()))));
    assert!(!model.takes_connection(&CommandMsg::NoToken));
    model.update(AppMsg::SignIn, NOW);
    assert!(model.takes_connection(&result(1, Ok(connection()))));
    assert!(!model.takes_connection(&result(0, Ok(connection()))));
}

#[test]
fn a_sign_in_reports_in_order() {
    let flow = || DeviceFlow { user_code: "AB-12".to_owned(), verification_uri: "u".to_owned() };
    let mut sign_in = SignIn::new(7);
    assert!(sign_in.advance(SignInEvent::Connected(Ok(connection()))).is_none());
    assert!(sign_in.advance(SignInEvent::Authorised(Ok("t".to_owned()))).is_none());
    match sign_in.advance(SignInEvent::Started(Ok(flow()))).unwrap() {
        SignInStep::Wait { report: CommandMsg::DeviceCode { generation, user_code, .. }, .. } => {
            assert_eq!((generation, user_code.as_str()), (7, "AB-12"));
        }
        other => panic!("{other:?}"),
    }
    assert!(sign_in.advance(SignInEvent::Started(Ok(flow()))).is_none());
    assert!(matches!(
        sign_in.advance(SignInEvent::Authorised(Ok("t".to_owned()))),
        Some(SignInStep::StoreAndConnect(token)) if token == "t"
    ));
    assert!(matches!(
        sign_in.advance(SignInEvent::Connected(Ok(connection()))),
        Some(SignInStep::Finish(CommandMsg::DeviceResult { generation: 7, .. }))
    ));
    assert!(sign_in.advance(SignInEvent::Started(Ok(flow()))).is_none());
    assert!(sign_in.advance(SignInEvent::Connected(Ok(connection()))).is_none());

    let mut failed = SignIn::new(8);
    let error = ConnectError::Offline("no".to_owned());
    assert!(matches!(
        failed.advance(SignInEvent::Started(Err(error))),
        Some(SignInStep::Finish(CommandMsg::DeviceResult { generation: 8, .. }))
    ));
    assert!(failed.advance(SignInEvent::Authorised(Ok("t".to_owned()))).is_none());
}

#[test]
fn the_recent_tab_is_capped() {
    let mut model = ready(&["o/n"]);
    let many = RECENT_CAP as u64 + 5;
    let runs = |n: u64| (0..n).map(|id| run(id, RunStatus::Queued, None, id as i64)).collect();
    model.update_cmd(polled(vec![fresh("o/n", "e", runs(many))]));
    let ids: Vec<u64> = model.recent().iter().map(|run| run.id).collect();
    assert_eq!(ids.len(), RECENT_CAP);
    assert_eq!((ids[0], ids[1]), (many - 1, many - 2));
    assert_eq!(model.all_runs().len() as u64, many);
    model.update_cmd(polled(vec![fresh("o/n", "f", runs(3))]));
    assert_eq!(model.recent().len(), 3);
}

#[test]
fn a_banner_tells_of_the_pause() {
    let mut model = ready(&["o/n"]);
    assert_eq!(model.backoff_banner_at(NOW), None);
    let rate = |reset: i64| RateLimit {
        remaining: 0,
        limit: 5000,
        reset: Some(Timestamp { secs: reset, nanos: 0 }),
    };
    let spent = Connection { login: "jane".to_owned(), rate: rate(1_000 + 150) };
    model.update_cmd(CommandMsg::Connected(Box::new(Ok(spent))));
    assert_eq!(
        model.backoff_banner_at(NOW).as_deref(),
        Some("GitHub's rate limit is used up — polling resumes in 2 min.")
    );
    assert_eq!(model.backoff_banner_at(Timestamp { secs: 1_150, nanos: 0 }), None);
    let (model, _) = AppModel::init(settings(&[]));
    assert_eq!(model.backoff_banner_at(NOW), None);
}
