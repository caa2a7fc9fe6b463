//! What the app promises of each message: what changes, what stays, and what
//! the window is asked to do.

use vstd::prelude::*;

use crate::app::reducer;
use crate::app::step;
use crate::app::{AppMsg, AppView, CommandMsg, EffectView, Modal, OnboardingPage, Screen};
use crate::components::run_row;
use crate::github::cache;
use crate::github::client;
use crate::github::client::{ConnectError, Connection};
use crate::github::types;
use crate::github::types::{Conclusion, RateLimit, RunAction, RunStatus};
use crate::notify;
use crate::runs;
use crate::settings;
use crate::settings::{NotifyOn, Settings, Theme};
use crate::text;
use crate::time::Timestamp;

verus! {

/// Whether the run at a place is the first under its id.
pub open spec fn first_of_its_id(shown: Seq<types::RunView>, i: int) -> bool {
    &&& 0 <= i < shown.len()
    &&& forall|j: int| 0 <= j < i ==> (#[trigger] shown[j]).id != shown[i].id
}

/// Any completed run can be re-run, whatever its conclusion, and so can one
/// whose status is unknown: GitHub is asked to re-run it, in its own repo and
/// under its own id, it is shown as queued without a conclusion, and nothing
/// else of it changes, nor of any run under another id.
pub proof fn law_completed_run_can_be_rerun(s: AppView, i: int, j: int, now: Timestamp)
    requires
        first_of_its_id(s.all_runs, i),
        s.all_runs[i].status == RunStatus::Completed || s.all_runs[i].status
            == RunStatus::Unknown,
    ensures
        ({
            let run = s.all_runs[i];
            let (next, effects) = step::after(
                s,
                AppMsg::Act { id: run.id, action: RunAction::Rerun },
                now,
            );
            &&& effects.len() >= 2
            &&& effects[1] == EffectView::Act {
                repo: run.repo,
                id: run.id,
                action: RunAction::Rerun,
            }
            &&& next.all_runs.len() == s.all_runs.len()
            &&& next.all_runs[i] == (types::RunView {
                status: RunStatus::Queued,
                conclusion: None,
                ..run
            })
            &&& 0 <= j < s.all_runs.len() && s.all_runs[j].id != run.id ==> next.all_runs[j]
                == s.all_runs[j]
            &&& next.rows == next.all_runs
            &&& next.cancelling == s.cancelling
        }),
{
    runs::law_first_is_found(s.all_runs, i);
}

/// Any run at work can be cancelled: GitHub is asked to cancel it, in its own
/// repo and under its own id, it is shown as being cancelled, and the status it
/// had is remembered. No run under another id changes.
pub proof fn law_run_at_work_can_be_cancelled(s: AppView, i: int, j: int, now: Timestamp)
    requires
        first_of_its_id(s.all_runs, i),
        s.all_runs[i].status == RunStatus::Queued || s.all_runs[i].status
            == RunStatus::InProgress,
    ensures
        ({
            let run = s.all_runs[i];
            let (next, effects) = step::after(
                s,
                AppMsg::Act { id: run.id, action: RunAction::Cancel },
                now,
            );
            &&& effects.len() >= 2
            &&& effects[1] == EffectView::Act {
                repo: run.repo,
                id: run.id,
                action: RunAction::Cancel,
            }
            &&& next.all_runs.len() == s.all_runs.len()
            &&& next.all_runs[i] == (types::RunView { status: RunStatus::Cancelling, ..run })
            &&& 0 <= j < s.all_runs.len() && s.all_runs[j].id != run.id ==> next.all_runs[j]
                == s.all_runs[j]
            &&& next.rows == next.all_runs
            &&& next.cancelling == s.cancelling.insert(run.id, run.status)
            &&& next.cache == s.cache
        }),
{
    runs::law_first_is_found(s.all_runs, i);
}

/// The failed jobs of a run that completed with a failure, a time-out or a
/// failed start can be re-run: GitHub is asked to, and the run is shown as
/// queued.
pub proof fn law_failed_jobs_can_be_rerun(s: AppView, i: int, now: Timestamp)
    requires
        first_of_its_id(s.all_runs, i),
        s.all_runs[i].status == RunStatus::Completed,
        s.all_runs[i].conclusion == Some(Conclusion::Failure) || s.all_runs[i].conclusion == Some(
            Conclusion::TimedOut,
        ) || s.all_runs[i].conclusion == Some(Conclusion::StartupFailure),
    ensures
        ({
            let run = s.all_runs[i];
            let (next, effects) = step::after(
                s,
                AppMsg::Act { id: run.id, action: RunAction::RerunFailed },
                now,
            );
            &&& effects.len() >= 2
            &&& effects[1] == EffectView::Act {
                repo: run.repo,
                id: run.id,
                action: RunAction::RerunFailed,
            }
            &&& next.all_runs[i] == (types::RunView {
                status: RunStatus::Queued,
                conclusion: None,
                ..run
            })
        }),
{
    runs::law_first_is_found(s.all_runs, i);
}

/// What a run does not allow changes nothing and asks for nothing: a re-run
/// while it is at work or being cancelled, a cancel once it is neither queued
/// nor in progress, its failed jobs where none failed, and anything on a run
/// that is not on show.
pub proof fn law_other_actions_do_nothing(
    s: AppView,
    i: int,
    action: RunAction,
    missing: u64,
    now: Timestamp,
)
    requires
        first_of_its_id(s.all_runs, i),
        ({
            let status = s.all_runs[i].status;
            let conclusion = s.all_runs[i].conclusion;
            let busy = status == RunStatus::Queued || status == RunStatus::InProgress;
            ||| action == RunAction::Cancel && !busy
            ||| action != RunAction::Cancel && (busy || status == RunStatus::Cancelling)
            ||| action == RunAction::RerunFailed && (conclusion is None || conclusion == Some(
                Conclusion::Success,
            ) || conclusion == Some(Conclusion::Cancelled) || conclusion == Some(
                Conclusion::Skipped,
            ) || conclusion == Some(Conclusion::ActionRequired) || conclusion == Some(
                Conclusion::Neutral,
            ) || conclusion == Some(Conclusion::Stale) || conclusion == Some(Conclusion::Unknown))
        }),
        forall|j: int| 0 <= j < s.all_runs.len() ==> (#[trigger] s.all_runs[j]).id != missing,
    ensures
        step::after(s, AppMsg::Act { id: s.all_runs[i].id, action }, now) == (
            s,
            Seq::<EffectView>::empty(),
        ),
        step::after(s, AppMsg::Act { id: missing, action }, now) == (s, Seq::<EffectView>::empty()),
{
    runs::law_first_is_found(s.all_runs, i);
    runs::law_missing_is_not_found(s.all_runs, missing);
}

/// A re-run is queued in what is known of its repo, too, so that the next poll
/// that has nothing new shows it so.
pub proof fn law_rerun_is_queued_in_the_cache(s: AppView, i: int, k: int, now: Timestamp)
    requires
        first_of_its_id(s.all_runs, i),
        s.all_runs[i].status == RunStatus::Completed,
        s.cache.dom().contains(s.all_runs[i].repo),
        0 <= k < s.cache[s.all_runs[i].repo].runs.len(),
    ensures
        ({
            let run = s.all_runs[i];
            let known = s.cache[run.repo].runs[k];
            let next = step::after(
                s,
                AppMsg::Act { id: run.id, action: RunAction::Rerun },
                now,
            ).0;
            &&& next.cache.dom().contains(run.repo)
            &&& next.cache[run.repo].etag == s.cache[run.repo].etag
            &&& known.id == run.id ==> next.cache[run.repo].runs[k] == (types::RunView {
                status: RunStatus::Queued,
                conclusion: None,
                ..known
            })
            &&& known.id != run.id ==> next.cache[run.repo].runs[k] == known
        }),
{
    runs::law_first_is_found(s.all_runs, i);
}

/// An open detail page is handed its run as it is now shown, whenever runs come
/// in or an action is taken.
pub proof fn law_open_page_is_kept_fresh(
    s: AppView,
    loaded: Seq<types::RunView>,
    i: int,
    id: u64,
    action: RunAction,
)
    requires
        s.detail is Some,
    ensures
        ({
            let (next, effects) = step::runs_in(s, loaded);
            first_of_its_id(next.all_runs, i) && next.all_runs[i].id == s.detail.unwrap()
                ==> effects.last() == EffectView::RefreshDetails(next.all_runs[i])
        }),
        ({
            let (next, effects) = step::acted(s, id, action);
            effects.len() > 0 && first_of_its_id(next.all_runs, i) && next.all_runs[i].id
                == s.detail.unwrap() ==> effects.last() == EffectView::RefreshDetails(
                next.all_runs[i],
            )
        }),
{
    let loaded_next = step::runs_in(s, loaded).0;
    let acted_next = step::acted(s, id, action).0;
    if first_of_its_id(loaded_next.all_runs, i) {
        runs::law_first_is_found(loaded_next.all_runs, i);
    }
    if first_of_its_id(acted_next.all_runs, i) {
        runs::law_first_is_found(acted_next.all_runs, i);
    }
}

/// A sign-in shows the wait without a code yet, a cancelled one the intro
/// again; neither touches anything else that is on show.
pub proof fn law_sign_in_and_cancel_turn_the_page(s: AppView, now: Timestamp)
    ensures
        ({
            let next = step::after(s, AppMsg::SignIn, now).0;
            &&& s.onboarding is None ==> next.onboarding is None
            &&& s.onboarding is Some ==> next.onboarding == Some(
                Modal { page: OnboardingPage::Awaiting, code: "…"@ },
            )
            &&& next == (AppView { auth_gen: next.auth_gen, onboarding: next.onboarding, ..s })
        }),
        ({
            let (next, effects) = step::after(s, AppMsg::CancelAuth, now);
            &&& s.onboarding is None ==> next.onboarding is None
            &&& s.onboarding matches Some(modal) ==> next.onboarding == Some(
                Modal { page: OnboardingPage::Intro, code: modal.code },
            )
            &&& next == (AppView {
                auth_gen: next.auth_gen,
                onboarding: next.onboarding,
                device: None,
                ..s
            })
            &&& effects.len() == 0
        }),
{
}

/// While a code is out, the two buttons open its page and copy the code itself,
/// and say so on the modal; without one, nothing is opened or copied.
pub proof fn law_code_is_opened_and_copied(
    s: AppView,
    code: Seq<char>,
    uri: Seq<char>,
    now: Timestamp,
)
    ensures
        step::after(s, AppMsg::OpenVerification, now).0 == s,
        step::after(s, AppMsg::CopyCode, now).0 == s,
        s.device == Some((code, uri)) ==> step::after(s, AppMsg::OpenVerification, now).1 == seq![
            EffectView::OpenUri(uri),
        ],
        s.device is None ==> step::after(s, AppMsg::OpenVerification, now).1.len() == 0,
        s.device == Some((code, uri)) && s.onboarding is Some ==> step::after(
            s,
            AppMsg::CopyCode,
            now,
        ).1 == seq![EffectView::CopyText(code), EffectView::ModalToast("Code copied"@)],
        s.device == Some((code, uri)) && s.onboarding is None ==> step::after(
            s,
            AppMsg::CopyCode,
            now,
        ).1 == seq![EffectView::CopyText(code)],
{
    assert(seq![EffectView::CopyText(code)] + seq![EffectView::ModalToast("Code copied"@)] =~= seq![
        EffectView::CopyText(code),
        EffectView::ModalToast("Code copied"@),
    ]);
    assert(seq![EffectView::CopyText(code)] + Seq::<EffectView>::empty() =~= seq![
        EffectView::CopyText(code),
    ]);
}

/// Signing out asks for the token to be cleared and shows nothing until it is;
/// trying again loads; a link is opened as it is.
pub proof fn law_sign_out_retry_and_links(s: AppView, url: String, now: Timestamp)
    ensures
        step::after(s, AppMsg::SignOut, now) == (s, seq![EffectView::ClearToken]),
        step::after(s, AppMsg::Retry, now) == (
            AppView { screen: Screen::Loading, ..s },
            seq![EffectView::Boot],
        ),
        step::after(s, AppMsg::OpenInBrowser(url), now) == (s, seq![EffectView::OpenUri(url@)]),
{
}

/// The picker opens on what is watched, and only with someone signed in.
pub proof fn law_picker_opens_on_the_watch_list(s: AppView, now: Timestamp)
    ensures
        s.connection is Some ==> step::after(s, AppMsg::EditWatchlist, now) == (
            AppView { picker_open: true, ..s },
            seq![EffectView::OpenPicker(s.watched)],
        ),
        s.connection is None ==> step::after(s, AppMsg::EditWatchlist, now) == (
            s,
            Seq::<EffectView>::empty(),
        ),
{
}

/// A saved watch set is the one that is watched and kept; what was known and
/// shown of the old one is gone, and no other setting changes.
pub proof fn law_new_watchlist_starts_afresh(s: AppView, names: Vec<String>, now: Timestamp)
    ensures
        ({
            let (next, effects) = step::after(s, AppMsg::WatchlistSaved(names), now);
            let chosen = text::texts(names@);
            &&& next.watched == chosen && next.settings.watched == chosen
            &&& next.settings.theme == s.settings.theme
            &&& next.settings.notify == s.settings.notify
            &&& next.settings.poll_interval == s.settings.poll_interval
            &&& next.all_runs.len() == 0 && next.rows.len() == 0
            &&& !next.runs_loaded && !next.picker_open
            &&& next.cache == Map::<Seq<char>, cache::CachedRuns>::empty()
            &&& next.cancelling == Map::<u64, RunStatus>::empty()
            &&& next.finished == s.finished
            &&& effects.len() >= 2
            &&& effects[0] == EffectView::SaveSettings(
                settings::file_of(
                    settings::SettingsView { watched: chosen, ..s.settings },
                ),
            )
            &&& effects[1] is RebuildRows
        }),
{
}

/// A saved watch set is polled at once, from scratch, by a window on show with
/// someone signed in: a running timer is restarted, and every repo is asked for
/// without an ETag. An empty one is not polled.
pub proof fn law_new_watchlist_is_polled(s: AppView, names: Vec<String>, i: int, now: Timestamp)
    requires
        s.connection is Some,
        !s.hidden,
    ensures
        ({
            let (next, effects) = step::after(s, AppMsg::WatchlistSaved(names), now);
            &&& names@.len() > 0 ==> next.polling && (effects.last() matches EffectView::FetchRuns(
                targets,
            ) && targets.len() == names@.len() && (0 <= i < targets.len() ==> targets[i].repo
                == names@[i]@ && targets[i].etag is None)) && effects[effects.len() - 2]
                == EffectView::StartTimer(s.settings.poll_interval)
            &&& names@.len() == 0 ==> !next.polling && effects.last() !is FetchRuns
        }),
{
}

/// A refresh that the user asks for spins the header and asks for every watched
/// repo, whatever the budget and also from a hidden window.
pub proof fn law_manual_refresh_fetches(s: AppView, i: int, now: Timestamp)
    requires
        s.connection is Some,
        s.watched.len() > 0,
    ensures
        ({
            let (next, effects) = step::after(s, AppMsg::ManualRefresh, now);
            &&& next == (AppView { refreshing: true, ..s })
            &&& effects.len() == 1
            &&& effects[0] matches EffectView::FetchRuns(targets) && targets.len()
                == s.watched.len() && (0 <= i < targets.len() ==> targets[i].repo == s.watched[i])
        }),
{
}

/// A row that is activated opens its run's page, and leaving it closes it.
pub proof fn law_details_open_and_close(s: AppView, i: int, now: Timestamp)
    requires
        first_of_its_id(s.all_runs, i),
    ensures
        step::after(s, AppMsg::ShowDetails(s.all_runs[i].id), now) == (
            AppView { detail: Some(s.all_runs[i].id), ..s },
            seq![EffectView::OpenDetails(s.all_runs[i])],
        ),
        step::after(s, AppMsg::DetailsClosed, now) == (
            AppView { detail: None, ..s },
            Seq::<EffectView>::empty(),
        ),
{
    runs::law_first_is_found(s.all_runs, i);
}

/// A preference that is set is the one in force and the one that is saved, and
/// no other setting changes.
pub proof fn law_preferences_are_set_and_saved(
    s: AppView,
    theme: Theme,
    notify: NotifyOn,
    now: Timestamp,
)
    ensures
        ({
            let (next, effects) = step::after(s, AppMsg::SetTheme(theme), now);
            &&& next.settings.theme == theme
            &&& next.settings.notify == s.settings.notify
            &&& next.settings.watched == s.settings.watched
            &&& next.settings.poll_interval == s.settings.poll_interval
            &&& next == (AppView { settings: next.settings, ..s })
            &&& effects.len() == 2
            &&& effects[0] == EffectView::SaveSettings(settings::file_of(next.settings))
            &&& effects[1] matches EffectView::ApplyTheme(scheme) && (theme is System
                <==> scheme is Default) && (theme is Light <==> scheme is ForceLight) && (
            theme is Dark <==> scheme is ForceDark)
        }),
        ({
            let (next, effects) = step::after(s, AppMsg::SetNotify(notify), now);
            &&& next.settings.notify == notify
            &&& next.settings.theme == s.settings.theme
            &&& next.settings.watched == s.settings.watched
            &&& next.settings.poll_interval == s.settings.poll_interval
            &&& next == (AppView { settings: next.settings, ..s })
            &&& effects == seq![
                EffectView::SaveSettings(settings::file_of(next.settings)),
            ]
        }),
{
}

/// A poll interval that is set is saved and in force; a running timer goes on
/// with it. Zero seconds is no interval and changes nothing.
pub proof fn law_interval_is_set_and_saved(s: AppView, seconds: u32, now: Timestamp)
    ensures
        seconds == 0 ==> step::after(s, AppMsg::SetPollInterval(seconds), now) == (
            s,
            Seq::<EffectView>::empty(),
        ),
        seconds > 0 ==> ({
            let (next, effects) = step::after(s, AppMsg::SetPollInterval(seconds), now);
            &&& next.settings.poll_interval == seconds
            &&& next.settings.theme == s.settings.theme
            &&& next.settings.notify == s.settings.notify
            &&& next.settings.watched == s.settings.watched
            &&& effects.len() >= 1
            &&& effects[0] == EffectView::SaveSettings(settings::file_of(next.settings))
            &&& s.polling && !s.hidden && s.connection is Some && s.watched.len() > 0
                ==> next.polling && effects.len() == 3 && effects[1] is StopTimer && effects[2]
                == EffectView::StartTimer(seconds)
            &&& !s.polling ==> !next.polling && effects.len() == 1
        }),
{
}

/// About tells who is signed in and how much of the hour's budget is left.
pub proof fn law_about_tells_the_budget(s: AppView, now: Timestamp)
    ensures
        s.connection is None ==> step::after(s, AppMsg::ShowAbout, now) == (
            s,
            seq![EffectView::ShowAbout("Not connected"@)],
        ),
        s.connection matches Some(c) ==> step::after(s, AppMsg::ShowAbout, now) == (
            s,
            seq![
                EffectView::ShowAbout(
                    "Signed in as "@ + c.login@ + "\nRate limit: "@ + text::decimal(
                        c.rate.remaining as nat,
                    ) + " / "@ + text::decimal(c.rate.limit as nat)
                        + " requests remaining this hour"@,
                ),
            ],
        ),
{
}

/// A connection closes the modal onto the app, forgets what was known of the
/// repos and, for a window on show that watches something, asks for all of it
/// at once, on a timer that runs from then on.
pub proof fn law_connection_opens_the_app(s: AppView, connection: Connection, i: int)
    ensures
        ({
            let (next, effects) = step::connected(s, Ok(connection));
            &&& next.connection == Some(connection)
            &&& next.screen is Ready && next.signed_in
            &&& next.onboarding is None && next.device is None
            &&& !next.runs_loaded && !next.seeded
            &&& next.cache == Map::<Seq<char>, cache::CachedRuns>::empty()
            &&& next.cancelling == Map::<u64, RunStatus>::empty()
            &&& next.watched == s.watched && next.settings == s.settings
            &&& next.finished == s.finished
            &&& !s.hidden && s.watched.len() > 0 ==> next.polling && (
            effects.last() matches EffectView::FetchRuns(targets) && targets.len()
                == s.watched.len() && (0 <= i < targets.len() ==> targets[i].repo == s.watched[i]
                && targets[i].etag is None))
            &&& !s.hidden && s.watched.len() > 0 && !s.polling ==> effects[0]
                == EffectView::StartTimer(s.settings.poll_interval)
        }),
{
}

/// A code that comes in for the current sign-in is shown, copied and its page
/// opened.
pub proof fn law_code_is_shown(s: AppView, user_code: String, verification_uri: String)
    ensures
        ({
            let msg = CommandMsg::DeviceCode { generation: s.auth_gen, user_code, verification_uri };
            let (next, effects) = step::after_cmd(s, msg);
            &&& next.device == Some((user_code@, verification_uri@))
            &&& s.onboarding is Some ==> next.onboarding == Some(
                Modal { page: OnboardingPage::Awaiting, code: user_code@ },
            )
            &&& s.onboarding is None ==> next.onboarding is None
            &&& effects == seq![
                EffectView::CopyText(user_code@),
                EffectView::OpenUri(verification_uri@),
            ]
        }),
{
}

/// A sign-in that fails is back at the intro, with the reason on the modal, and
/// the code is forgotten; one that succeeds opens the app.
pub proof fn law_sign_in_ends(s: AppView, error: ConnectError, connection: Connection)
    ensures
        ({
            let (next, effects) = step::device_finished(s, Err(error));
            &&& next.device is None
            &&& s.onboarding matches Some(modal) ==> next.onboarding == Some(
                Modal { page: OnboardingPage::Intro, code: modal.code },
            ) && effects == seq![EffectView::ModalToast(error.spec_message())]
            &&& next.connection == s.connection && next.screen == s.screen
        }),
        ({
            let next = step::device_finished(s, Ok(connection)).0;
            &&& next.connection == Some(connection)
            &&& next.screen is Ready && next.signed_in && next.onboarding is None
            &&& next.device is None
        }),
{
}

/// Startup without a token is signed out, with the modal at its intro.
pub proof fn law_no_token_is_signed_out(s: AppView)
    ensures
        ({
            let (next, effects) = step::after_cmd(s, CommandMsg::NoToken);
            &&& next.screen is SignedOut && !next.signed_in && next.device is None
            &&& next.onboarding matches Some(modal) && modal.page == OnboardingPage::Intro && (
            s.onboarding matches Some(before) ==> modal.code == before.code)
            &&& next.connection == s.connection && next.all_runs == s.all_runs
            &&& effects.len() == 0
        }),
{
}

/// Runs that come in are shown in their order, each as it came but for the
/// status of one that is being cancelled, and the spinner stops.
pub proof fn law_runs_are_shown_as_they_came(s: AppView, loaded: Seq<types::RunView>, i: int)
    ensures
        ({
            let next = step::runs_in(s, loaded).0;
            &&& next.all_runs.len() == loaded.len()
            &&& next.rows == next.all_runs
            &&& next.runs_loaded && !next.refreshing && next.seeded
            &&& next.finished == notify::record_runs(s.finished, loaded)
            &&& next.connection == s.connection && next.screen == s.screen
            &&& 0 <= i < loaded.len() ==> next.all_runs[i] == (types::RunView {
                status: next.all_runs[i].status,
                ..loaded[i]
            })
            &&& 0 <= i < loaded.len() && !s.cancelling.dom().contains(loaded[i].id)
                ==> next.all_runs[i] == loaded[i]
        }),
{
    if 0 <= i < loaded.len() && !s.cancelling.dom().contains(loaded[i].id) {
        runs::law_settling_adds_nothing(s.cancelling, loaded, loaded[i].id);
    }
}

/// A poll that failed everywhere says so with its reason: on a toast where runs
/// are on show, on the disconnected page, without a timer, where none are.
pub proof fn law_failed_poll_is_told(s: AppView, reason: Seq<char>)
    ensures
        s.runs_loaded ==> step::runs_failed(s, reason).1 == seq![
            EffectView::Toast("Couldn't refresh: "@ + reason),
        ],
        !s.runs_loaded ==> ({
            let (next, effects) = step::runs_failed(s, reason);
            &&& next.screen == Screen::Disconnected(reason)
            &&& !next.polling && !next.refreshing
            &&& s.polling ==> effects == seq![EffectView::StopTimer]
            &&& !s.polling ==> effects.len() == 0
        }),
{
}

/// A poll fails only where every repo did, with the first repo's reason: one
/// repo that answered is enough for its runs to be shown.
pub proof fn law_one_answer_is_enough(
    s: AppView,
    slots: Seq<client::RepoRunsView>,
    rate: Option<RateLimit>,
    i: int,
)
    requires
        0 <= i < slots.len(),
    ensures
        slots[i].outcome !is Failed ==> step::poll_in(s, slots, rate).0.runs_loaded,
        (forall|k: int| 0 <= k < slots.len() ==> (#[trigger] slots[k]).outcome is Failed)
            && s.runs_loaded ==> step::poll_in(s, slots, rate).1 == seq![
            EffectView::Toast("Couldn't refresh: "@ + slots[0].outcome->Failed_0),
        ],
{
}

/// After a poll exactly what is known of the watched repos is shown, no run
/// lost and none added; and without a budget in the answer the old one stands.
pub proof fn law_poll_shows_what_is_known(
    s: AppView,
    slots: Seq<client::RepoRunsView>,
    rate: Option<RateLimit>,
)
    requires
        !step::all_failed(slots),
    ensures
        ({
            let next = step::poll_in(s, slots, rate).0;
            let known = cache::known_runs(cache::after_slots(s.cache, slots), s.watched);
            &&& runs::ids(next.all_runs).to_multiset() == runs::ids(known).to_multiset()
            &&& next.all_runs.len() == known.len()
            &&& next.cache == cache::after_slots(s.cache, slots)
            &&& rate is None ==> next.connection == s.connection
        }),
{
    let known = cache::known_runs(cache::after_slots(s.cache, slots), s.watched);
    let sorted = runs::newest_first(known);
    let next = step::poll_in(s, slots, rate).0;
    runs::law_newest_first(known);
    runs::law_order_keeps_the_ids(known);
    assert(runs::ids(next.all_runs) =~= runs::ids(sorted));
}

/// An action that GitHub took is followed up: the watched repos are asked for
/// at once, and again after three seconds and after nine. A hidden window
/// leaves it.
pub proof fn law_taken_action_is_followed_up(s: AppView, repo: String, id: u64)
    ensures
        ({
            let (next, effects) = step::after_cmd(
                s,
                CommandMsg::ActionDone { repo, id, outcome: Ok(()) },
            );
            &&& next == s
            &&& s.hidden ==> effects.len() == 0
            &&& !s.hidden && s.connection is Some && s.watched.len() > 0 ==> effects.len() == 3
                && effects[0] is FetchRuns && effects[1] == EffectView::RefreshLater(3)
                && effects[2] == EffectView::RefreshLater(9)
        }),
{
}

/// An action that GitHub refused is told with the reason, and the repo it was
/// for is asked for afresh, without its ETag.
pub proof fn law_refused_action_is_told(s: AppView, repo: String, id: u64, reason: String)
    ensures
        ({
            let (next, effects) = step::after_cmd(
                s,
                CommandMsg::ActionDone { repo, id, outcome: Err(reason) },
            );
            &&& effects.len() >= 2 && effects[1] == EffectView::Toast(reason@)
            &&& cache::etag_for(next.cache, repo@) is None
            &&& !next.cancelling.dom().contains(id)
            &&& !s.cancelling.dom().contains(id) ==> next.all_runs == s.all_runs
            &&& !s.hidden && s.connection is Some && s.watched.len() > 0 ==> (
            effects.last() matches EffectView::FetchRuns(targets) && targets == cache::targets_for(
                next.cache,
                s.watched,
            ))
        }),
{
}

/// Whatever a row's button offers is taken: pressing it asks GitHub for just
/// that action, on that run in its own repo, and nothing that it does not offer
/// comes of a button that cannot be pressed.
pub proof fn law_offered_action_is_taken(
    s: AppView,
    i: int,
    action: RunAction,
    now: Timestamp,
)
    requires
        first_of_its_id(s.all_runs, i),
    ensures
        ({
            let run = s.all_runs[i];
            let (next, effects) = step::after(s, AppMsg::Act { id: run.id, action }, now);
            &&& run_row::offered(run.status) == Some(action) ==> effects.len() >= 2 && effects[1]
                == EffectView::Act { repo: run.repo, id: run.id, action }
            &&& run_row::offered(run.status) is None ==> effects.len() == 0 && next == s
        }),
{
    runs::law_first_is_found(s.all_runs, i);
}

/// An action updates the rows in place: it changes no run's id.
pub proof fn law_action_updates_in_place(s: AppView, id: u64, action: RunAction)
    requires
        s.rows == s.all_runs,
        step::acted(s, id, action).1.len() > 0,
    ensures
        step::acted(s, id, action).1[0] is UpdateRows,
        step::acted(s, id, action).0.all_runs.len() == s.all_runs.len(),
{
    let next = step::acted(s, id, action).0;
    assert(runs::ids(next.all_runs) =~= runs::ids(s.all_runs));
}

/// With nothing watched a connection starts no timer and has nothing fetched,
/// and neither does showing the window.
pub proof fn law_nothing_watched_nothing_polled(
    s: AppView,
    connection: Connection,
    now: Timestamp,
)
    requires
        s.watched.len() == 0,
    ensures
        step::connected(s, Ok(connection)).1.len() == 0,
        step::connected(s, Ok(connection)).0.polling == s.polling,
        step::after(s, AppMsg::SuspendedChanged(false), now).1.len() == 0,
        step::after(s, AppMsg::ManualRefresh, now).1.len() == 0,
        step::after(s, AppMsg::Refresh, now).1.len() == 0,
{
}

/// A window that is shown again fetches only where the app is up.
pub proof fn law_shown_window_fetches_only_in_the_app(s: AppView, i: int, now: Timestamp)
    requires
        s.screen !is Ready,
        0 <= i < step::after(s, AppMsg::SuspendedChanged(false), now).1.len(),
    ensures
        step::after(s, AppMsg::SuspendedChanged(false), now).1[i] !is FetchRuns,
        !step::after(s, AppMsg::SuspendedChanged(false), now).0.hidden,
{
}

/// The app starts out loading, with the settings it was given and what they
/// watch, and nothing else: nobody signed in, no runs, no timer, nothing on
/// record.
pub proof fn law_fresh_start(settings: Settings)
    ensures
        ({
            let s = reducer::fresh_view(settings);
            &&& s.screen is Loading && s.connection is None && s.onboarding is None
            &&& s.device is None && !s.signed_in && s.auth_gen == 0
            &&& s.settings == settings@ && s.watched == settings@.watched
            &&& s.all_runs.len() == 0 && s.rows.len() == 0 && !s.runs_loaded
            &&& !s.polling && !s.hidden && !s.refreshing && !s.seeded && !s.picker_open
            &&& s.finished == Map::<u64, (Conclusion, Timestamp)>::empty()
            &&& s.cache == Map::<Seq<char>, cache::CachedRuns>::empty()
            &&& s.cancelling == Map::<u64, RunStatus>::empty()
            &&& s.detail is None
        }),
{
}

/// A connection is taken from startup, and from the current sign-in; a failed
/// one and one of a stale sign-in are not.
pub proof fn law_which_connections_are_taken(
    s: AppView,
    generation: u64,
    result: Result<Connection, ConnectError>,
)
    ensures
        step::connects(s, CommandMsg::Connected(Box::new(result))) == (result is Ok),
        step::connects(s, CommandMsg::DeviceResult { generation, result: Box::new(result) }) == (
        result is Ok && generation == s.auth_gen),
        !step::connects(s, CommandMsg::NoToken),
        !step::connects(s, CommandMsg::TokenCleared),
{
}

/// A poll of nothing is no failure: it shows that there are no runs.
pub proof fn law_empty_poll_is_no_failure(s: AppView, rate: Option<RateLimit>)
    ensures
        step::poll_in(s, Seq::empty(), rate).0.runs_loaded,
        step::poll_in(s, Seq::empty(), rate).0.screen == s.screen,
{
}

} // verus!
