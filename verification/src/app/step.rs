//! What each message means: where it takes the model, and what the window is
//! to do.

use vstd::prelude::*;

use crate::app::{AppMsg, AppView, CommandMsg, EffectView, Modal, OnboardingPage, Screen, FIRST_FOLLOW_UP, SECOND_FOLLOW_UP};
use crate::github::cache;
use crate::github::client;
use crate::github::client::{ConnectError, Connection};
use crate::github::types;
use crate::github::types::{RateLimit, RunAction, RunStatus};
use crate::notify;
use crate::runs;
use crate::settings;
use crate::settings::{ColorScheme, Theme};
use crate::text;
use crate::time::Timestamp;

verus! {

/// Whether there is someone to ask, and something to ask for.
pub open spec fn can_poll(s: AppView) -> bool {
    s.connection is Some && s.watched.len() > 0
}

/// Start the poll, unless it's already running, the window is hidden or there's
/// nothing to poll.
pub open spec fn poll_started(s: AppView) -> (AppView, Seq<EffectView>) {
    if s.polling || s.hidden || !can_poll(s) {
        (s, Seq::empty())
    } else {
        (
            AppView { polling: true, ..s },
            seq![EffectView::StartTimer(s.settings.poll_interval)],
        )
    }
}

/// Remove the poll timer, if it runs.
pub open spec fn poll_stopped(s: AppView) -> (AppView, Seq<EffectView>) {
    if s.polling {
        (AppView { polling: false, ..s }, seq![EffectView::StopTimer])
    } else {
        (s, Seq::empty())
    }
}

/// The fetch of a run list across the watched repos, each with its stored
/// ETag, where there is someone to ask and something to ask for.
pub open spec fn fetch_of(s: AppView) -> Seq<EffectView> {
    if can_poll(s) {
        seq![EffectView::FetchRuns(cache::targets_for(s.cache, s.watched))]
    } else {
        Seq::empty()
    }
}

/// The poll's fetch: none while the window is hidden, since the first thing a
/// window does when it is shown again is to fetch.
pub open spec fn refresh_of(s: AppView) -> Seq<EffectView> {
    if s.hidden {
        Seq::empty()
    } else {
        fetch_of(s)
    }
}

/// Signed out, with the onboarding modal up and back at its intro.
pub open spec fn onboarding_shown(s: AppView) -> AppView {
    AppView {
        onboarding: Some(
            Modal {
                page: OnboardingPage::Intro,
                code: match s.onboarding {
                    Some(modal) => modal.code,
                    None => Seq::empty(),
                },
            },
        ),
        screen: Screen::SignedOut,
        device: None,
        signed_in: false,
        ..s
    }
}

/// Connected: the modal closes onto the app, and what was known of the repos
/// is forgotten.
pub open spec fn ready(s: AppView, connection: Connection) -> AppView {
    AppView {
        onboarding: None,
        connection: Some(connection),
        screen: Screen::Ready,
        device: None,
        runs_loaded: false,
        signed_in: true,
        seeded: false,
        cache: Map::empty(),
        cancelling: Map::empty(),
        ..s
    }
}

/// Connected: polling begins, now and on the interval.
pub open spec fn made_ready(s: AppView, connection: Connection) -> (AppView, Seq<EffectView>) {
    let (started, timer) = poll_started(ready(s, connection));
    (started, timer + refresh_of(started))
}

/// The effect of showing rows in place of others.
pub open spec fn rows_effect(
    before: Seq<types::RunView>,
    after: Seq<types::RunView>,
) -> EffectView {
    if runs::same_ids(before, after) {
        EffectView::UpdateRows
    } else {
        EffectView::RebuildRows
    }
}

/// Fresh data for the open detail page, if its run is there.
pub open spec fn detail_effects(s: AppView) -> Seq<EffectView> {
    match s.detail {
        Some(id) => match runs::find_run(s.all_runs, id) {
            Some(run) => seq![EffectView::RefreshDetails(run)],
            None => Seq::empty(),
        },
        None => Seq::empty(),
    }
}

/// The notifications as effects.
pub open spec fn notify_effects(due: Seq<notify::NotificationView>) -> Seq<EffectView> {
    due.map_values(|n: notify::NotificationView| EffectView::Notify(n))
}

/// The runs came in: they are shown, those being cancelled as such until they
/// complete, and each that has freshly finished is announced. The first ones
/// since connecting seed the record silently.
pub open spec fn runs_in(
    s: AppView,
    loaded: Seq<types::RunView>,
) -> (AppView, Seq<EffectView>) {
    let cancelling = runs::settled(s.cancelling, loaded);
    let shown = runs::all_overlaid(loaded, cancelling);
    let next = AppView {
        all_runs: shown,
        rows: shown,
        runs_loaded: true,
        refreshing: false,
        cancelling,
        finished: notify::record_runs(s.finished, loaded),
        seeded: true,
        ..s
    };
    let due = if s.seeded {
        notify::due(s.finished, loaded, s.settings.notify)
    } else {
        Seq::empty()
    };
    (
        next,
        seq![rows_effect(s.rows, shown)] + notify_effects(due) + detail_effects(next),
    )
}

/// Every repo failed: with runs on show, keep them and just say so; without,
/// it is the disconnected page.
pub open spec fn runs_failed(s: AppView, reason: Seq<char>) -> (AppView, Seq<EffectView>) {
    let settled = AppView { refreshing: false, ..s };
    if s.runs_loaded {
        (settled, seq![EffectView::Toast("Couldn't refresh: "@ + reason)])
    } else {
        let (stopped, timer) = poll_stopped(settled);
        (AppView { screen: Screen::Disconnected(reason), ..stopped }, timer)
    }
}

/// Whether every slot of a poll failed.
pub open spec fn all_failed(slots: Seq<client::RepoRunsView>) -> bool {
    slots.len() > 0 && forall|i: int|
        0 <= i < slots.len() ==> (#[trigger] slots[i]).outcome is Failed
}

/// The model once a poll's budget and slots are taken in.
pub open spec fn poll_absorbed(
    s: AppView,
    slots: Seq<client::RepoRunsView>,
    rate: Option<RateLimit>,
) -> AppView {
    AppView {
        connection: match (s.connection, rate) {
            (Some(connection), Some(rate)) => Some(Connection { rate, ..connection }),
            _ => s.connection,
        },
        cache: cache::after_slots(s.cache, slots),
        ..s
    }
}

/// A poll came back: its fresh runs replace what was known, and what is now
/// known of the watched repos is shown, the newest first.
pub open spec fn poll_in(
    s: AppView,
    slots: Seq<client::RepoRunsView>,
    rate: Option<RateLimit>,
) -> (AppView, Seq<EffectView>) {
    let absorbed = poll_absorbed(s, slots, rate);
    if all_failed(slots) {
        runs_failed(absorbed, slots[0].outcome->Failed_0)
    } else {
        runs_in(absorbed, runs::newest_first(cache::known_runs(absorbed.cache, s.watched)))
    }
}

/// Whether a run allows an action: one at work can be cancelled, one that is
/// not can be re-run, and one that went wrong can have its failed jobs re-run.
pub open spec fn allows(run: types::RunView, action: RunAction) -> bool {
    match action {
        RunAction::Cancel => run.status.active(),
        RunAction::Rerun => !run.status.active() && run.status !is Cancelling,
        RunAction::RerunFailed => !run.status.active() && run.status !is Cancelling
            && runs::is_failing(run),
    }
}

/// The runs as they are shown the moment an action is taken, before GitHub's
/// list catches up.
pub open spec fn acted_runs(
    shown: Seq<types::RunView>,
    id: u64,
    action: RunAction,
) -> Seq<types::RunView> {
    match action {
        RunAction::Cancel => shown.map_values(
            |r: types::RunView|
                if r.id == id {
                    types::RunView { status: RunStatus::Cancelling, ..r }
                } else {
                    r
                },
        ),
        _ => cache::requeued(shown, id),
    }
}

/// An action on a run on show, where the run allows it: it is shown in the
/// state to come, and GitHub is asked.
pub open spec fn acted(s: AppView, id: u64, action: RunAction) -> (AppView, Seq<EffectView>) {
    match runs::find_run(s.all_runs, id) {
        Some(run) => if allows(run, action) {
            let shown = acted_runs(s.all_runs, id, action);
            let next = AppView {
                all_runs: shown,
                rows: shown,
                cancelling: if action is Cancel {
                    s.cancelling.insert(id, run.status)
                } else {
                    s.cancelling
                },
                cache: if action is Cancel {
                    s.cache
                } else {
                    cache::run_requeued(s.cache, run.repo, id)
                },
                ..s
            };
            (
                next,
                seq![rows_effect(s.rows, shown), EffectView::Act { repo: run.repo, id, action }]
                    + detail_effects(next),
            )
        } else {
            (s, Seq::empty())
        },
        None => (s, Seq::empty()),
    }
}

/// An action was taken: poll now and follow up twice, since GitHub's list lags
/// its own answer. A hidden window leaves that to when it is shown again.
pub open spec fn action_taken(s: AppView) -> Seq<EffectView> {
    if s.hidden {
        Seq::empty()
    } else {
        refresh_of(s) + seq![
            EffectView::RefreshLater(FIRST_FOLLOW_UP),
            EffectView::RefreshLater(SECOND_FOLLOW_UP),
        ]
    }
}

/// The runs once the one under `id` is no longer being cancelled.
pub open spec fn uncancelled(s: AppView, id: u64) -> Seq<types::RunView> {
    if s.cancelling.dom().contains(id) {
        runs::restored(s.all_runs, id, s.cancelling[id])
    } else {
        s.all_runs
    }
}

/// An action was refused: the run is shown as it was, the reason is told, and
/// its repo is asked for afresh.
pub open spec fn action_refused(
    s: AppView,
    repo: Seq<char>,
    id: u64,
    reason: Seq<char>,
) -> (AppView, Seq<EffectView>) {
    let shown = uncancelled(s, id);
    let next = AppView {
        all_runs: shown,
        rows: shown,
        cancelling: s.cancelling.remove(id),
        cache: cache::etag_forgotten(s.cache, repo),
        ..s
    };
    (
        next,
        seq![rows_effect(s.rows, shown), EffectView::Toast(reason)] + detail_effects(next)
            + refresh_of(next),
    )
}

/// The model with a new watch set, and nothing known of its repos yet.
pub open spec fn watching(s: AppView, names: Seq<Seq<char>>) -> AppView {
    AppView {
        watched: names,
        settings: settings::SettingsView { watched: names, ..s.settings },
        picker_open: false,
        all_runs: Seq::empty(),
        rows: Seq::empty(),
        runs_loaded: false,
        cache: Map::empty(),
        cancelling: Map::empty(),
        ..s
    }
}

/// Remove the poll timer, if it runs, and start the poll anew.
pub open spec fn poll_restarted(s: AppView) -> (AppView, Seq<EffectView>) {
    let (stopped, stop) = poll_stopped(s);
    let (started, start) = poll_started(stopped);
    (started, stop + start)
}

/// A new watch set: it is saved, the old runs are cleared and the poll starts
/// from scratch.
pub open spec fn watchlist_saved(
    s: AppView,
    names: Seq<Seq<char>>,
) -> (AppView, Seq<EffectView>) {
    let saved = watching(s, names);
    let (started, timer) = poll_restarted(saved);
    (
        started,
        seq![
            EffectView::SaveSettings(settings::file_of(saved.settings)),
            EffectView::RebuildRows,
        ] + timer + refresh_of(started),
    )
}

/// A new poll interval: it is saved, and a running timer restarts with it. A
/// timer needs at least a second.
pub open spec fn interval_set(s: AppView, seconds: u32) -> (AppView, Seq<EffectView>) {
    if seconds == 0 {
        (s, Seq::empty())
    } else {
        let saved = AppView {
            settings: settings::SettingsView { poll_interval: seconds, ..s.settings },
            ..s
        };
        let save = seq![EffectView::SaveSettings(settings::file_of(saved.settings))];
        if s.polling {
            let (started, timer) = poll_restarted(saved);
            (started, save + timer)
        } else {
            (saved, save)
        }
    }
}

/// The window was hidden, which stops the poll, or shown, which starts it.
pub open spec fn visibility_set(s: AppView, hidden: bool) -> (AppView, Seq<EffectView>) {
    let set = AppView { hidden, ..s };
    if hidden {
        poll_stopped(set)
    } else {
        let (started, timer) = poll_started(set);
        // Whatever was last drawn is as stale as the pause was long.
        (
            started,
            timer + if s.screen is Ready {
                refresh_of(started)
            } else {
                Seq::empty()
            },
        )
    }
}

/// The About dialog's debug info.
pub open spec fn debug_info(s: AppView) -> Seq<char> {
    match s.connection {
        Some(connection) => "Signed in as "@ + connection.login@ + "\nRate limit: "@
            + text::decimal(connection.rate.remaining as nat) + " / "@ + text::decimal(
            connection.rate.limit as nat,
        ) + " requests remaining this hour"@,
        None => "Not connected"@,
    }
}

/// Whether the budget is spent at `now`, so that polling has to pause.
pub open spec fn paused(s: AppView, now: Timestamp) -> bool {
    match s.connection {
        Some(connection) => connection.rate.spent(now),
        None => false,
    }
}

/// The onboarding modal on a page.
pub open spec fn on_page(modal: Option<Modal>, page: OnboardingPage) -> Option<Modal> {
    match modal {
        Some(modal) => Some(Modal { page, ..modal }),
        None => None,
    }
}

/// Where a message takes the model, and what the window is to do.
pub open spec fn after(s: AppView, msg: AppMsg, now: Timestamp) -> (AppView, Seq<EffectView>) {
    match msg {
        // A new sign-in supersedes any in-flight one.
        AppMsg::SignIn => {
            let generation = (s.auth_gen + 1) as u64;
            (
                AppView {
                    auth_gen: generation,
                    onboarding: match s.onboarding {
                        Some(_) => Some(Modal { page: OnboardingPage::Awaiting, code: "…"@ }),
                        None => None,
                    },
                    ..s
                },
                seq![EffectView::StartDeviceFlow { generation }],
            )
        },
        AppMsg::OpenVerification => (
            s,
            match s.device {
                Some((_, uri)) => seq![EffectView::OpenUri(uri)],
                None => Seq::empty(),
            },
        ),
        AppMsg::CopyCode => (
            s,
            match s.device {
                Some((code, _)) => seq![EffectView::CopyText(code)],
                None => Seq::empty(),
            } + match s.onboarding {
                Some(_) => seq![EffectView::ModalToast("Code copied"@)],
                None => Seq::empty(),
            },
        ),
        // Invalidate the in-flight flow; its late result is ignored.
        AppMsg::CancelAuth => (
            AppView {
                auth_gen: (s.auth_gen + 1) as u64,
                device: None,
                onboarding: on_page(s.onboarding, OnboardingPage::Intro),
                ..s
            },
            Seq::empty(),
        ),
        AppMsg::SignOut => (s, seq![EffectView::ClearToken]),
        AppMsg::EditWatchlist => if s.connection is Some {
            (AppView { picker_open: true, ..s }, seq![EffectView::OpenPicker(s.watched)])
        } else {
            (s, Seq::empty())
        },
        AppMsg::WatchlistSaved(names) => watchlist_saved(s, text::texts(names@)),
        AppMsg::Retry => (AppView { screen: Screen::Loading, ..s }, seq![EffectView::Boot]),
        // A spent budget pauses the background poll rather than earn a 403.
        AppMsg::Refresh => (
            s,
            if paused(s, now) {
                Seq::empty()
            } else {
                refresh_of(s)
            },
        ),
        // What the user asks for is fetched.
        AppMsg::ManualRefresh => (AppView { refreshing: true, ..s }, fetch_of(s)),
        AppMsg::OpenInBrowser(url) => (s, seq![EffectView::OpenUri(url@)]),
        AppMsg::ShowDetails(id) => match runs::find_run(s.all_runs, id) {
            Some(run) => (AppView { detail: Some(id), ..s }, seq![EffectView::OpenDetails(run)]),
            None => (s, Seq::empty()),
        },
        AppMsg::DetailsClosed => (AppView { detail: None, ..s }, Seq::empty()),
        AppMsg::Act { id, action } => acted(s, id, action),
        AppMsg::SuspendedChanged(suspended) => visibility_set(s, suspended),
        AppMsg::SetTheme(theme) => {
            let saved = settings::SettingsView { theme, ..s.settings };
            (
                AppView { settings: saved, ..s },
                seq![
                    EffectView::SaveSettings(settings::file_of(saved)),
                    EffectView::ApplyTheme(
                        match theme {
                            Theme::System => ColorScheme::Default,
                            Theme::Light => ColorScheme::ForceLight,
                            Theme::Dark => ColorScheme::ForceDark,
                        },
                    ),
                ],
            )
        },
        AppMsg::SetNotify(notify) => {
            let saved = settings::SettingsView { notify, ..s.settings };
            (
                AppView { settings: saved, ..s },
                seq![EffectView::SaveSettings(settings::file_of(saved))],
            )
        },
        AppMsg::SetPollInterval(seconds) => interval_set(s, seconds),
        AppMsg::ShowAbout => (s, seq![EffectView::ShowAbout(debug_info(s))]),
    }
}

/// A connection attempt's outcome.
pub open spec fn connected(
    s: AppView,
    result: Result<Connection, ConnectError>,
) -> (AppView, Seq<EffectView>) {
    match result {
        Ok(connection) => made_ready(s, connection),
        Err(error) => if error is Auth {
            (
                onboarding_shown(AppView { connection: None, ..s }),
                seq![EffectView::ModalToast(error.spec_message())],
            )
        } else {
            (
                AppView {
                    onboarding: None,
                    connection: None,
                    screen: Screen::Disconnected(error.spec_message()),
                    signed_in: false,
                    ..s
                },
                Seq::empty(),
            )
        },
    }
}

/// The end of a device flow that is still wanted.
pub open spec fn device_finished(
    s: AppView,
    result: Result<Connection, ConnectError>,
) -> (AppView, Seq<EffectView>) {
    let ended = AppView { device: None, ..s };
    match result {
        Ok(connection) => made_ready(ended, connection),
        Err(error) => (
            AppView { onboarding: on_page(s.onboarding, OnboardingPage::Intro), ..ended },
            match s.onboarding {
                Some(_) => seq![EffectView::ModalToast(error.spec_message())],
                None => Seq::empty(),
            },
        ),
    }
}

/// Whether a result of outside work is a connection that the model takes.
pub open spec fn connects(s: AppView, msg: CommandMsg) -> bool {
    match msg {
        CommandMsg::Connected(result) => *result is Ok,
        CommandMsg::DeviceResult { generation, result } => generation == s.auth_gen && *result
            is Ok,
        _ => false,
    }
}

/// Where a result of outside work takes the model, and what the window is to
/// do.
pub open spec fn after_cmd(s: AppView, msg: CommandMsg) -> (AppView, Seq<EffectView>) {
    match msg {
        CommandMsg::Connected(result) => connected(s, *result),
        CommandMsg::NoToken => (onboarding_shown(s), Seq::empty()),
        CommandMsg::TokenCleared => (
            onboarding_shown(AppView { connection: None, ..s }),
            Seq::empty(),
        ),
        CommandMsg::DeviceCode { generation, user_code, verification_uri } => if generation
            != s.auth_gen {
            (s, Seq::empty())
        } else {
            (
                AppView {
                    onboarding: match s.onboarding {
                        Some(_) => Some(
                            Modal { page: OnboardingPage::Awaiting, code: user_code@ },
                        ),
                        None => None,
                    },
                    device: Some((user_code@, verification_uri@)),
                    ..s
                },
                seq![EffectView::CopyText(user_code@), EffectView::OpenUri(verification_uri@)],
            )
        },
        CommandMsg::DeviceResult { generation, result } => if generation != s.auth_gen {
            (s, Seq::empty())
        } else {
            device_finished(s, *result)
        },
        CommandMsg::Polled(poll) => poll_in(s, client::slot_views(poll.repos@), poll.rate),
        CommandMsg::RunsLoaded(loaded) => runs_in(s, types::run_views(loaded@)),
        CommandMsg::RunsFailed(reason) => runs_failed(s, reason@),
        CommandMsg::ActionDone { repo, id, outcome } => match outcome {
            Ok(_) => (s, action_taken(s)),
            Err(reason) => action_refused(s, repo@, id, reason@),
        },
    }
}

} // verus!
