//! What holds of every step of the app.

use vstd::prelude::*;

use crate::app::reducer;
use crate::app::step;
use crate::app::{AppMsg, AppView, CommandMsg, EffectView, OnboardingPage, Screen};
use crate::github::cache;
use crate::github::client;
use crate::github::client::{ConnectError, Connection};
use crate::github::types;
use crate::github::types::{RateLimit, RunAction, RunStatus};
use crate::notify;
use crate::runs;
use crate::settings;
use crate::settings::Settings;
use crate::text;
use crate::time::Timestamp;

verus! {

/// What every state of the app keeps to: the rows show the runs, the watch
/// list mirrors the settings, the signed-in menu items need a connection, being
/// signed out means the modal is up, and a hidden window has no poll timer.
pub open spec fn consistent(s: AppView) -> bool {
    &&& s.rows == s.all_runs
    &&& s.watched == s.settings.watched
    &&& s.signed_in ==> s.connection is Some
    &&& s.screen is SignedOut ==> s.onboarding is Some
    &&& s.hidden ==> !s.polling
}

/// The app starts out consistent.
pub proof fn law_startup_is_consistent(settings: Settings)
    ensures
        consistent(reducer::fresh_view(settings)),
{
}

/// Every message keeps the state consistent.
#[verifier::spinoff_prover]
#[verifier::rlimit(30)]
pub proof fn law_update_keeps_consistent(s: AppView, msg: AppMsg, now: Timestamp)
    requires
        consistent(s),
    ensures
        consistent(step::after(s, msg, now).0),
{
}

/// Every result of outside work keeps the state consistent.
#[verifier::spinoff_prover]
#[verifier::rlimit(30)]
pub proof fn law_update_cmd_keeps_consistent(s: AppView, msg: CommandMsg)
    requires
        consistent(s),
    ensures
        consistent(step::after_cmd(s, msg).0),
{
}

/// A sign-in result from a flow that was cancelled or superseded changes
/// nothing and does nothing.
pub proof fn law_stale_sign_in_is_ignored(s: AppView, msg: CommandMsg)
    requires
        match msg {
            CommandMsg::DeviceCode { generation, .. } => generation != s.auth_gen,
            CommandMsg::DeviceResult { generation, .. } => generation != s.auth_gen,
            _ => false,
        },
    ensures
        step::after_cmd(s, msg) == (s, Seq::<EffectView>::empty()),
{
}

/// Every sign-in and every cancel starts a new generation, one up, and nothing
/// else does: a flow that went stale stays stale. A sign-in starts its flow
/// under the new one, and a cancel forgets the code.
#[verifier::spinoff_prover]
#[verifier::rlimit(30)]
pub proof fn law_generations_count_up(s: AppView, msg: AppMsg, now: Timestamp)
    requires
        s.auth_gen < u64::MAX,
    ensures
        msg is SignIn || msg is CancelAuth ==> step::after(s, msg, now).0.auth_gen == s.auth_gen
            + 1,
        msg !is SignIn && msg !is CancelAuth ==> step::after(s, msg, now).0.auth_gen == s.auth_gen,
        msg is SignIn ==> step::after(s, msg, now).1 == seq![
            EffectView::StartDeviceFlow { generation: (s.auth_gen + 1) as u64 },
        ],
        msg is CancelAuth ==> step::after(s, msg, now).0.device is None,
{
}

/// No result of outside work touches the generation.
#[verifier::spinoff_prover]
#[verifier::rlimit(30)]
pub proof fn law_commands_keep_the_generation(s: AppView, msg: CommandMsg)
    ensures
        step::after_cmd(s, msg).0.auth_gen == s.auth_gen,
{
}

/// Whether the timer runs after these effects, given whether it ran before;
/// `None` if one is started twice or a missing one is removed.
pub open spec fn timer_after(effects: Seq<EffectView>, on: bool) -> Option<bool>
    decreases effects.len(),
{
    if effects.len() == 0 {
        Some(on)
    } else {
        match timer_after(effects.drop_last(), on) {
            Some(running) => match effects.last() {
                EffectView::StartTimer(_) => if running {
                    None
                } else {
                    Some(true)
                },
                EffectView::StopTimer => if running {
                    Some(false)
                } else {
                    None
                },
                _ => Some(running),
            },
            None => None,
        }
    }
}

/// Whether an effect has to do with the timer.
pub open spec fn is_timer(effect: EffectView) -> bool {
    effect is StartTimer || effect is StopTimer
}

/// Effects that have nothing to do with the timer leave it as it is.
proof fn lemma_no_timer(effects: Seq<EffectView>, on: bool)
    requires
        forall|i: int| 0 <= i < effects.len() ==> !is_timer(#[trigger] effects[i]),
    ensures
        timer_after(effects, on) == Some(on),
    decreases effects.len(),
{
    if effects.len() > 0 {
        let init = effects.drop_last();
        assert forall|i: int| 0 <= i < init.len() implies !is_timer(#[trigger] init[i]) by {
            assert(init[i] == effects[i]);
        }
        lemma_no_timer(init, on);
        assert(!is_timer(effects[effects.len() - 1]));
    }
}

/// Effects one after the other run the timer one after the other.
proof fn lemma_timer_concat(a: Seq<EffectView>, b: Seq<EffectView>, on: bool)
    requires
        timer_after(a, on) is Some,
    ensures
        timer_after(a + b, on) == timer_after(b, timer_after(a, on).unwrap()),
    decreases b.len(),
{
    if b.len() == 0 {
        assert(a + b =~= a);
    } else {
        lemma_timer_concat(a, b.drop_last(), on);
        assert((a + b).drop_last() =~= a + b.drop_last());
        assert((a + b).last() == b.last());
    }
}

/// Starting the poll keeps to the timer.
proof fn lemma_start_keeps_timer(s: AppView)
    ensures
        timer_after(step::poll_started(s).1, s.polling) == Some(step::poll_started(s).0.polling),
{
    reveal_with_fuel(timer_after, 3);
    let effects = step::poll_started(s).1;
    if effects.len() > 0 {
        assert(effects.drop_last() =~= Seq::<EffectView>::empty());
    }
}

/// Stopping the poll keeps to the timer.
proof fn lemma_stop_keeps_timer(s: AppView)
    ensures
        timer_after(step::poll_stopped(s).1, s.polling) == Some(step::poll_stopped(s).0.polling),
{
    reveal_with_fuel(timer_after, 3);
    let effects = step::poll_stopped(s).1;
    if effects.len() > 0 {
        assert(effects.drop_last() =~= Seq::<EffectView>::empty());
    }
}

/// Connecting keeps to the timer.
proof fn lemma_ready_keeps_timer(s: AppView, connection: Connection)
    ensures
        timer_after(step::made_ready(s, connection).1, s.polling) == Some(
            step::made_ready(s, connection).0.polling,
        ),
{
    let ready = step::ready(s, connection);
    let (started, timer) = step::poll_started(ready);
    lemma_start_keeps_timer(ready);
    lemma_timer_concat(timer, step::refresh_of(started), s.polling);
    lemma_no_timer(step::refresh_of(started), started.polling);
}

/// Restarting the poll keeps to the timer.
proof fn lemma_restart_keeps_timer(s: AppView)
    ensures
        timer_after(step::poll_restarted(s).1, s.polling) == Some(
            step::poll_restarted(s).0.polling,
        ),
{
    let (stopped, stop) = step::poll_stopped(s);
    let (started, start) = step::poll_started(stopped);
    lemma_stop_keeps_timer(s);
    lemma_start_keeps_timer(stopped);
    lemma_timer_concat(stop, start, s.polling);
}

/// A new watch set keeps to the timer.
proof fn lemma_watchlist_keeps_timer(s: AppView, names: Seq<Seq<char>>)
    ensures
        timer_after(step::watchlist_saved(s, names).1, s.polling) == Some(
            step::watchlist_saved(s, names).0.polling,
        ),
{
    let saved = step::watching(s, names);
    let (started, timer) = step::poll_restarted(saved);
    let first = seq![
        EffectView::SaveSettings(settings::file_of(saved.settings)),
        EffectView::RebuildRows,
    ];
    lemma_no_timer(first, s.polling);
    lemma_restart_keeps_timer(saved);
    lemma_timer_concat(first, timer, s.polling);
    lemma_timer_concat(first + timer, step::refresh_of(started), s.polling);
    lemma_no_timer(step::refresh_of(started), started.polling);
}

/// A new poll interval keeps to the timer.
proof fn lemma_interval_keeps_timer(s: AppView, seconds: u32)
    ensures
        timer_after(step::interval_set(s, seconds).1, s.polling) == Some(
            step::interval_set(s, seconds).0.polling,
        ),
{
    if seconds != 0 && s.polling {
        let saved = AppView {
            settings: settings::SettingsView { poll_interval: seconds, ..s.settings },
            ..s
        };
        let save = seq![EffectView::SaveSettings(settings::file_of(saved.settings))];
        lemma_no_timer(save, s.polling);
        lemma_restart_keeps_timer(saved);
        lemma_timer_concat(save, step::poll_restarted(saved).1, s.polling);
    } else {
        lemma_no_timer(step::interval_set(s, seconds).1, s.polling);
    }
}

/// Showing or hiding the window keeps to the timer.
proof fn lemma_suspend_keeps_timer(s: AppView, suspended: bool, now: Timestamp)
    ensures
        timer_after(step::after(s, AppMsg::SuspendedChanged(suspended), now).1, s.polling) == Some(
            step::after(s, AppMsg::SuspendedChanged(suspended), now).0.polling,
        ),
{
    if suspended {
        lemma_stop_keeps_timer(AppView { hidden: true, ..s });
    } else {
        let shown = AppView { hidden: false, ..s };
        let (started, timer) = step::poll_started(shown);
        let rest = if s.screen is Ready {
            step::refresh_of(started)
        } else {
            Seq::empty()
        };
        lemma_start_keeps_timer(shown);
        lemma_timer_concat(timer, rest, s.polling);
        lemma_no_timer(rest, started.polling);
    }
}

/// An action keeps to the timer.
proof fn lemma_act_keeps_timer(s: AppView, id: u64, action: RunAction)
    ensures
        timer_after(step::acted(s, id, action).1, s.polling) == Some(
            step::acted(s, id, action).0.polling,
        ),
{
    lemma_no_timer(step::acted(s, id, action).1, s.polling);
}

/// The poll timer is never started twice and a missing one is never removed,
/// and the model always knows whether it runs.
#[verifier::spinoff_prover]
#[verifier::rlimit(40)]
pub proof fn law_update_keeps_one_timer(s: AppView, msg: AppMsg, now: Timestamp)
    ensures
        timer_after(step::after(s, msg, now).1, s.polling) == Some(
            step::after(s, msg, now).0.polling,
        ),
{
    match msg {
        AppMsg::WatchlistSaved(names) => {
            lemma_watchlist_keeps_timer(s, text::texts(names@));
        },
        AppMsg::SuspendedChanged(suspended) => {
            lemma_suspend_keeps_timer(s, suspended, now);
        },
        AppMsg::SetPollInterval(seconds) => {
            lemma_interval_keeps_timer(s, seconds);
        },
        AppMsg::Act { id, action } => {
            lemma_act_keeps_timer(s, id, action);
        },
        AppMsg::Refresh | AppMsg::ManualRefresh => {
            lemma_no_timer(step::fetch_of(s), s.polling);
            lemma_no_timer(Seq::empty(), s.polling);
        },
        _ => {
            lemma_no_timer(step::after(s, msg, now).1, s.polling);
        },
    }
}

/// The poll timer is never started twice and a missing one is never removed,
/// whatever comes back from outside.
#[verifier::spinoff_prover]
#[verifier::rlimit(30)]
pub proof fn law_update_cmd_keeps_one_timer(s: AppView, msg: CommandMsg)
    ensures
        timer_after(step::after_cmd(s, msg).1, s.polling) == Some(
            step::after_cmd(s, msg).0.polling,
        ),
{
    let (next, effects) = step::after_cmd(s, msg);
    match msg {
        CommandMsg::Connected(result) => match *result {
            Ok(connection) => lemma_ready_keeps_timer(s, connection),
            Err(_) => lemma_no_timer(effects, s.polling),
        },
        CommandMsg::DeviceResult { generation, result } => match *result {
            Ok(connection) => {
                if generation == s.auth_gen {
                    lemma_ready_keeps_timer(AppView { device: None, ..s }, connection);
                } else {
                    lemma_no_timer(effects, s.polling);
                }
            },
            Err(_) => lemma_no_timer(effects, s.polling),
        },
        CommandMsg::Polled(poll) => {
            let slots = client::slot_views(poll.repos@);
            let absorbed = step::poll_absorbed(s, slots, poll.rate);
            if step::all_failed(slots) {
                lemma_failed_keeps_timer(absorbed, slots[0].outcome->Failed_0);
            } else {
                lemma_no_timer(effects, s.polling);
            }
        },
        CommandMsg::RunsFailed(reason) => lemma_failed_keeps_timer(s, reason@),
        _ => {
            lemma_no_timer(effects, s.polling);
        },
    }
}

/// A failed poll keeps to the timer.
proof fn lemma_failed_keeps_timer(s: AppView, reason: Seq<char>)
    ensures
        timer_after(step::runs_failed(s, reason).1, s.polling) == Some(
            step::runs_failed(s, reason).0.polling,
        ),
{
    if s.runs_loaded {
        lemma_no_timer(step::runs_failed(s, reason).1, s.polling);
    } else {
        lemma_stop_keeps_timer(AppView { refreshing: false, ..s });
    }
}

/// Whether an effect polls: it fetches runs, starts the timer or has a refresh
/// follow later.
pub open spec fn polls(effect: EffectView) -> bool {
    effect is FetchRuns || effect is StartTimer || effect is RefreshLater
}

/// Hiding the window stops the poll: the timer is removed and nothing is
/// fetched.
pub proof fn law_hiding_stops_the_poll(s: AppView, now: Timestamp)
    ensures
        step::after(s, AppMsg::SuspendedChanged(true), now).0.hidden,
        !step::after(s, AppMsg::SuspendedChanged(true), now).0.polling,
        forall|i: int|
            0 <= i < step::after(s, AppMsg::SuspendedChanged(true), now).1.len() ==> (
            #[trigger] step::after(s, AppMsg::SuspendedChanged(true), now).1[i]) is StopTimer,
{
}

/// Whether a step keeps a hidden window from polling: it stays hidden, without
/// a timer, and the effect in question does not poll.
pub open spec fn stays_quiet(after: (AppView, Seq<EffectView>), i: int) -> bool {
    &&& after.0.hidden
    &&& !after.0.polling
    &&& 0 <= i < after.1.len() ==> !polls(after.1[i])
}

/// A new watch set keeps a hidden window quiet.
proof fn lemma_quiet_watchlist(s: AppView, names: Seq<Seq<char>>, i: int)
    requires
        s.hidden,
        !s.polling,
    ensures
        stays_quiet(step::watchlist_saved(s, names), i),
{
}

/// A new poll interval keeps a hidden window quiet.
proof fn lemma_quiet_interval(s: AppView, seconds: u32, i: int)
    requires
        s.hidden,
        !s.polling,
    ensures
        stays_quiet(step::interval_set(s, seconds), i),
{
}

/// An action keeps a hidden window quiet.
proof fn lemma_quiet_action(s: AppView, id: u64, action: RunAction, i: int)
    requires
        s.hidden,
        !s.polling,
    ensures
        stays_quiet(step::acted(s, id, action), i),
{
}

/// A connection keeps a hidden window quiet.
proof fn lemma_quiet_connection(s: AppView, connection: Connection, i: int)
    requires
        s.hidden,
        !s.polling,
    ensures
        stays_quiet(step::made_ready(s, connection), i),
{
}

/// Runs that come in keep a hidden window quiet.
proof fn lemma_quiet_runs(s: AppView, loaded: Seq<types::RunView>, i: int)
    requires
        s.hidden,
        !s.polling,
    ensures
        stays_quiet(step::runs_in(s, loaded), i),
{
}

/// A failed poll keeps a hidden window quiet.
proof fn lemma_quiet_failure(s: AppView, reason: Seq<char>, i: int)
    requires
        s.hidden,
        !s.polling,
    ensures
        stays_quiet(step::runs_failed(s, reason), i),
{
}

/// A refused action keeps a hidden window quiet.
proof fn lemma_quiet_refusal(s: AppView, repo: Seq<char>, id: u64, reason: Seq<char>, i: int)
    requires
        s.hidden,
        !s.polling,
    ensures
        stays_quiet(step::action_refused(s, repo, id, reason), i),
{
}

/// A hidden window does not poll: until it is shown again it stays hidden, and
/// no message starts the timer, has runs fetched or has a refresh follow. Only
/// a refresh that the user asks for goes out.
#[verifier::spinoff_prover]
#[verifier::rlimit(40)]
pub proof fn law_hidden_window_does_not_poll(s: AppView, msg: AppMsg, now: Timestamp, i: int)
    requires
        consistent(s),
        s.hidden,
        msg != AppMsg::SuspendedChanged(false),
    ensures
        step::after(s, msg, now).0.hidden,
        !step::after(s, msg, now).0.polling,
        msg !is ManualRefresh && 0 <= i < step::after(s, msg, now).1.len() ==> !polls(
            step::after(s, msg, now).1[i],
        ),
{
    match msg {
        AppMsg::WatchlistSaved(names) => lemma_quiet_watchlist(s, text::texts(names@), i),
        AppMsg::SetPollInterval(seconds) => lemma_quiet_interval(s, seconds, i),
        AppMsg::Act { id, action } => lemma_quiet_action(s, id, action, i),
        _ => {},
    }
}

/// A hidden window does not poll, whatever comes back from outside: a
/// connection made meanwhile waits until the window is shown.
#[verifier::spinoff_prover]
#[verifier::rlimit(40)]
pub proof fn law_hidden_window_does_not_poll_on_results(s: AppView, msg: CommandMsg, i: int)
    requires
        consistent(s),
        s.hidden,
    ensures
        step::after_cmd(s, msg).0.hidden,
        !step::after_cmd(s, msg).0.polling,
        0 <= i < step::after_cmd(s, msg).1.len() ==> !polls(step::after_cmd(s, msg).1[i]),
{
    match msg {
        CommandMsg::Connected(result) => match *result {
            Ok(connection) => lemma_quiet_connection(s, connection, i),
            Err(_) => {},
        },
        CommandMsg::DeviceResult { generation, result } => match *result {
            Ok(connection) => lemma_quiet_connection(
                AppView { device: None, ..s },
                connection,
                i,
            ),
            Err(_) => {},
        },
        CommandMsg::Polled(poll) => {
            let slots = client::slot_views(poll.repos@);
            let absorbed = step::poll_absorbed(s, slots, poll.rate);
            if step::all_failed(slots) {
                lemma_quiet_failure(absorbed, slots[0].outcome->Failed_0, i);
            } else {
                lemma_quiet_runs(
                    absorbed,
                    runs::newest_first(cache::known_runs(absorbed.cache, s.watched)),
                    i,
                );
            }
        },
        CommandMsg::RunsLoaded(loaded) => lemma_quiet_runs(s, types::run_views(loaded@), i),
        CommandMsg::RunsFailed(reason) => lemma_quiet_failure(s, reason@, i),
        CommandMsg::ActionDone { repo, id, outcome } => match outcome {
            Ok(_) => {},
            Err(reason) => lemma_quiet_refusal(s, repo@, id, reason@, i),
        },
        _ => {},
    }
}

/// A window that is shown again polls again: with someone to ask and something
/// to ask for, the timer runs, and where the app is connected the runs are
/// fetched at once.
pub proof fn law_shown_window_polls(s: AppView, now: Timestamp)
    requires
        consistent(s),
        s.hidden,
        step::can_poll(s),
        s.screen is Ready,
    ensures
        step::after(s, AppMsg::SuspendedChanged(false), now).0 == (AppView {
            hidden: false,
            polling: true,
            ..s
        }),
        step::after(s, AppMsg::SuspendedChanged(false), now).1 == seq![
            EffectView::StartTimer(s.settings.poll_interval),
            EffectView::FetchRuns(cache::targets_for(s.cache, s.watched)),
        ],
{
    assert(step::after(s, AppMsg::SuspendedChanged(false), now).1 =~= seq![
        EffectView::StartTimer(s.settings.poll_interval),
        EffectView::FetchRuns(cache::targets_for(s.cache, s.watched)),
    ]);
}

/// A spent budget pauses the background poll: the tick sends nothing until the
/// window resets.
pub proof fn law_spent_budget_pauses_the_poll(s: AppView, now: Timestamp)
    requires
        s.connection is Some,
        s.connection.unwrap().rate.spent(now),
    ensures
        step::after(s, AppMsg::Refresh, now) == (s, Seq::<EffectView>::empty()),
{
}

/// A background tick of a window on show, with budget, asks for every watched
/// repo, each with the ETag stored for it.
pub proof fn law_tick_polls_the_watch_list(s: AppView, now: Timestamp)
    requires
        s.connection is Some,
        !s.connection.unwrap().rate.spent(now),
        s.watched.len() > 0,
        !s.hidden,
    ensures
        step::after(s, AppMsg::Refresh, now) == (
            s,
            seq![EffectView::FetchRuns(cache::targets_for(s.cache, s.watched))],
        ),
{
}

/// With nobody signed in, or nothing watched, no message has runs fetched.
#[verifier::spinoff_prover]
#[verifier::rlimit(30)]
pub proof fn law_nothing_is_fetched_without_a_connection(
    s: AppView,
    msg: AppMsg,
    now: Timestamp,
    i: int,
)
    requires
        s.connection is None,
        0 <= i < step::after(s, msg, now).1.len(),
    ensures
        step::after(s, msg, now).1[i] !is FetchRuns,
{
    match msg {
        AppMsg::WatchlistSaved(names) => {
            assert(step::watchlist_saved(s, text::texts(names@)).1[i] !is FetchRuns);
        },
        AppMsg::SuspendedChanged(suspended) => {
            assert(step::visibility_set(s, suspended).1[i] !is FetchRuns);
        },
        AppMsg::SetPollInterval(seconds) => {
            assert(step::interval_set(s, seconds).1[i] !is FetchRuns);
        },
        AppMsg::Act { id, action } => {
            assert(step::acted(s, id, action).1[i] !is FetchRuns);
        },
        _ => {},
    }
}

/// Connecting starts the record over: the next runs seed it silently.
pub proof fn law_connecting_starts_over(s: AppView, msg: CommandMsg)
    requires
        step::connects(s, msg),
    ensures
        !step::after_cmd(s, msg).0.seeded,
        step::after_cmd(s, msg).0.connection is Some,
        step::after_cmd(s, msg).0.screen is Ready,
{
}

/// The first runs after connecting are recorded silently: nothing that was
/// wrong before is announced.
pub proof fn law_first_runs_are_silent(s: AppView, loaded: Seq<types::RunView>, i: int)
    requires
        !s.seeded,
        0 <= i < step::runs_in(s, loaded).1.len(),
    ensures
        step::runs_in(s, loaded).1[i] !is Notify,
        step::runs_in(s, loaded).0.finished == notify::record_runs(s.finished, loaded),
        step::runs_in(s, loaded).0.seeded,
{
}

/// Only the first runs are silent: once seeded, the record stays so until the
/// app connects anew. Neither a message nor a new watch set starts it over.
#[verifier::spinoff_prover]
#[verifier::rlimit(30)]
pub proof fn law_seeded_until_connecting(s: AppView, msg: AppMsg, now: Timestamp)
    ensures
        step::after(s, msg, now).0.seeded == s.seeded,
{
}

/// Only the first runs are silent: whatever comes back from outside, a seeded
/// record stays so until the app connects anew.
#[verifier::spinoff_prover]
#[verifier::rlimit(30)]
pub proof fn law_seeded_until_connecting_on_results(s: AppView, msg: CommandMsg)
    requires
        s.seeded,
        !step::connects(s, msg),
    ensures
        step::after_cmd(s, msg).0.seeded,
{
}

/// The moment a run fails it is announced, once: runs that come in after the
/// first raise exactly one notification for each run that freshly finished in a
/// way worth one, however often it is listed, as long as its entries agree on
/// how it finished. Gives the notification's place, and that of the run's first
/// finished entry, which it tells of.
pub proof fn law_fresh_finish_is_announced(
    s: AppView,
    loaded: Seq<types::RunView>,
    i: int,
) -> (r: (int, int))
    requires
        s.seeded,
        0 <= i < loaded.len(),
        notify::agrees(loaded, i),
        notify::freshly_finished(s.finished, loaded[i]),
        s.settings.notify.wants(loaded[i].conclusion.unwrap()),
    ensures
        0 <= r.0 < step::runs_in(s, loaded).1.len(),
        0 <= r.1 <= i,
        loaded[r.1].id == loaded[i].id,
        notify::finish_of(loaded[r.1]) == notify::finish_of(loaded[i]),
        step::runs_in(s, loaded).1[r.0] == EffectView::Notify(
            notify::finished_notification(loaded[r.1], loaded[i].conclusion.unwrap()),
        ),
        forall|j: int|
            0 <= j < step::runs_in(s, loaded).1.len() && announces(
                #[trigger] step::runs_in(s, loaded).1[j],
                loaded[i].id,
            ) ==> j == r.0,
{
    let due = notify::due(s.finished, loaded, s.settings.notify);
    let (p, e) = notify::law_one_notification_per_run(s.finished, loaded, s.settings.notify, i);
    let effects = step::runs_in(s, loaded).1;
    let alerts = step::notify_effects(due);
    assert(alerts[p] == EffectView::Notify(due[p]));
    assert forall|j: int|
        0 <= j < effects.len() && announces(#[trigger] effects[j], loaded[i].id) implies j == p
        + 1 by {
        if 1 <= j < 1 + due.len() {
            assert(effects[j] == alerts[j - 1]);
            assert(due[j - 1].id == notify::run_notification_id(loaded[i].id));
        }
    }
    (p + 1, e)
}

/// Whether an effect is a notification under a run's notification id.
pub open spec fn announces(effect: EffectView, id: u64) -> bool {
    effect matches EffectView::Notify(alert) && alert.id == notify::run_notification_id(id)
}

/// A run that was seen since connecting and then fails is announced exactly
/// once, also where the watch list was saved in between.
pub proof fn law_failure_after_new_watchlist_is_announced(
    s: AppView,
    early: Seq<types::RunView>,
    names: Vec<String>,
    late: Seq<types::RunView>,
    k: int,
    now: Timestamp,
) -> (r: (int, int))
    requires
        0 <= k < late.len(),
        notify::agrees(late, k),
        notify::freshly_finished(notify::record_runs(s.finished, early), late[k]),
        s.settings.notify.wants(late[k].conclusion.unwrap()),
    ensures
        ({
            let seen = step::runs_in(s, early).0;
            let saved = step::after(seen, AppMsg::WatchlistSaved(names), now).0;
            let effects = step::runs_in(saved, late).1;
            &&& 0 <= r.0 < effects.len()
            &&& 0 <= r.1 <= k
            &&& late[r.1].id == late[k].id
            &&& effects[r.0] == EffectView::Notify(
                notify::finished_notification(late[r.1], late[k].conclusion.unwrap()),
            )
            &&& forall|j: int|
                0 <= j < effects.len() && announces(#[trigger] effects[j], late[k].id) ==> j
                    == r.0
        }),
{
    let seen = step::runs_in(s, early).0;
    let saved = step::after(seen, AppMsg::WatchlistSaved(names), now).0;
    law_fresh_finish_is_announced(saved, late, k)
}

/// The same runs again announce nothing.
pub proof fn law_same_runs_announce_nothing(
    s: AppView,
    loaded: Seq<types::RunView>,
    i: int,
)
    requires
        notify::consistent(loaded),
        0 <= i < step::runs_in(step::runs_in(s, loaded).0, loaded).1.len(),
    ensures
        step::runs_in(step::runs_in(s, loaded).0, loaded).1[i] !is Notify,
{
    notify::law_announced_once(s.finished, loaded, s.settings.notify);
}

/// A transient failure keeps the runs: once runs are on show, a poll that
/// fails everywhere changes nothing but the spinner.
pub proof fn law_failure_keeps_the_runs(s: AppView, reason: Seq<char>)
    requires
        s.runs_loaded,
    ensures
        step::runs_failed(s, reason).0 == (AppView { refreshing: false, ..s }),
{
}

/// Runs that come in update the rows in place while the id set is unchanged,
/// whatever the order: the list is rebuilt only when its runs change.
pub proof fn law_unchanged_ids_update_in_place(
    s: AppView,
    loaded: Seq<types::RunView>,
)
    ensures
        step::runs_in(s, loaded).1[0] == if runs::ids(s.rows).to_multiset() == runs::ids(
            loaded,
        ).to_multiset() {
            EffectView::UpdateRows
        } else {
            EffectView::RebuildRows
        },
        step::runs_in(s, loaded).0.rows.len() == loaded.len(),
{
    let shown = runs::all_overlaid(loaded, runs::settled(s.cancelling, loaded));
    assert(runs::ids(shown) =~= runs::ids(loaded));
}

/// Finding a run by its id finds one with that id, in the list.
proof fn lemma_found(shown: Seq<types::RunView>, id: u64) -> (i: int)
    requires
        runs::find_run(shown, id) is Some,
    ensures
        0 <= i < shown.len(),
        shown[i] == runs::find_run(shown, id).unwrap(),
        shown[i].id == id,
        forall|j: int| 0 <= j < i ==> (#[trigger] shown[j]).id != id,
    decreases shown.len(),
{
    if shown[0].id == id {
        0
    } else {
        let k = lemma_found(shown.skip(1), id);
        assert(shown[k + 1] == shown.skip(1)[k]);
        assert forall|j: int| 0 <= j < k + 1 implies (#[trigger] shown[j]).id != id by {
            if j > 0 {
                assert(shown[j] == shown.skip(1)[j - 1]);
            }
        }
        k + 1
    }
}

/// The first run under an id is what finding it gives.
proof fn lemma_finds(shown: Seq<types::RunView>, id: u64, i: int)
    requires
        0 <= i < shown.len(),
        shown[i].id == id,
        forall|j: int| 0 <= j < i ==> (#[trigger] shown[j]).id != id,
    ensures
        runs::find_run(shown, id) == Some(shown[i]),
    decreases i,
{
    if i > 0 {
        let rest = shown.skip(1);
        assert(rest[i - 1] == shown[i]);
        assert forall|j: int| 0 <= j < i - 1 implies (#[trigger] rest[j]).id != id by {
            assert(rest[j] == shown[j + 1]);
        }
        lemma_finds(rest, id, i - 1);
    }
}

/// An action is shown at once: a run that is cancelled reads as being
/// cancelled, one that is re-run as queued, before GitHub's list catches up.
pub proof fn law_action_shows_at_once(s: AppView, id: u64, action: RunAction, now: Timestamp)
    requires
        runs::find_run(s.all_runs, id) is Some,
        step::allows(runs::find_run(s.all_runs, id).unwrap(), action),
    ensures
        runs::find_run(step::after(s, AppMsg::Act { id, action }, now).0.all_runs, id) is Some,
        ({
            let shown = runs::find_run(
                step::after(s, AppMsg::Act { id, action }, now).0.all_runs,
                id,
            ).unwrap();
            if action is Cancel {
                shown.status is Cancelling
            } else {
                shown.status is Queued && shown.conclusion is None
            }
        }),
{
    let i = lemma_found(s.all_runs, id);
    let shown = step::acted_runs(s.all_runs, id, action);
    assert forall|j: int| 0 <= j < i implies (#[trigger] shown[j]).id != id by {
        assert(s.all_runs[j].id != id);
    }
    lemma_finds(shown, id, i);
}

/// A run stays shown as being cancelled until it completes: runs that come in
/// with it still unfinished show it so.
pub proof fn law_cancelling_holds_until_completed(
    s: AppView,
    loaded: Seq<types::RunView>,
    i: int,
)
    requires
        0 <= i < loaded.len(),
        s.cancelling.dom().contains(loaded[i].id),
        forall|j: int|
            0 <= j < loaded.len() && (#[trigger] loaded[j]).id == loaded[i].id
                ==> loaded[j].status !is Completed,
    ensures
        step::runs_in(s, loaded).0.all_runs[i].status is Cancelling,
        step::runs_in(s, loaded).0.cancelling.dom().contains(loaded[i].id),
{
    lemma_unsettled(s.cancelling, loaded, loaded[i].id);
}

/// Only a run that completed is settled.
proof fn lemma_unsettled(
    cancelling: Map<u64, RunStatus>,
    loaded: Seq<types::RunView>,
    id: u64,
)
    requires
        cancelling.dom().contains(id),
        forall|j: int|
            0 <= j < loaded.len() && (#[trigger] loaded[j]).id == id ==> loaded[j].status
                !is Completed,
    ensures
        runs::settled(cancelling, loaded).dom().contains(id),
    decreases loaded.len(),
{
    if loaded.len() > 0 {
        let init = loaded.drop_last();
        assert forall|j: int| 0 <= j < init.len() && (#[trigger] init[j]).id == id implies
            init[j].status !is Completed by {
            assert(init[j] == loaded[j]);
        }
        lemma_unsettled(cancelling, init, id);
        assert(loaded.last() == loaded[loaded.len() - 1]);
    }
}

/// Once a run completed, it is shown as it came in.
pub proof fn law_completed_run_is_settled(
    s: AppView,
    loaded: Seq<types::RunView>,
    i: int,
)
    requires
        0 <= i < loaded.len(),
        loaded[i].status is Completed,
    ensures
        step::runs_in(s, loaded).0.all_runs[i] == loaded[i],
{
    lemma_settled(s.cancelling, loaded, i);
}

/// A run that completed is settled.
proof fn lemma_settled(cancelling: Map<u64, RunStatus>, loaded: Seq<types::RunView>, i: int)
    requires
        0 <= i < loaded.len(),
        loaded[i].status is Completed,
    ensures
        !runs::settled(cancelling, loaded).dom().contains(loaded[i].id),
    decreases loaded.len(),
{
    let init = loaded.drop_last();
    if i < init.len() {
        assert(init[i] == loaded[i]);
        lemma_settled(cancelling, init, i);
    }
}

/// A refused cancel shows the run as it was.
pub proof fn law_refused_cancel_is_undone(
    s: AppView,
    id: u64,
    reason: Seq<char>,
    i: int,
    now: Timestamp,
)
    requires
        0 <= i < s.all_runs.len(),
        s.all_runs[i].id == id,
        runs::find_run(s.all_runs, id) == Some(s.all_runs[i]),
        step::allows(s.all_runs[i], RunAction::Cancel),
    ensures
        ({
            let asked = step::after(s, AppMsg::Act { id, action: RunAction::Cancel }, now).0;
            let refused = step::action_refused(asked, s.all_runs[i].repo, id, reason).0;
            &&& refused.all_runs[i] == s.all_runs[i]
            &&& !refused.cancelling.dom().contains(id)
            &&& cache::etag_for(refused.cache, s.all_runs[i].repo) is None
        }),
{
}

/// A re-run stays shown as queued while the list answers "not modified": the
/// poll keeps what is known of its repo, the queued run included.
pub proof fn law_requeued_run_survives_not_modified(
    known: Map<Seq<char>, cache::CachedRuns>,
    repo: Seq<char>,
    id: u64,
    slots: Seq<client::RepoRunsView>,
    i: int,
)
    requires
        known.dom().contains(repo),
        0 <= i < known[repo].runs.len(),
        known[repo].runs[i].id == id,
        forall|k: int|
            0 <= k < slots.len() && (#[trigger] slots[k]).repo == repo
                ==> slots[k].outcome !is Fresh,
    ensures
        ({
            let after = cache::after_slots(cache::run_requeued(known, repo, id), slots);
            &&& cache::runs_of(after, repo).len() == known[repo].runs.len()
            &&& cache::runs_of(after, repo)[i] == cache::queued_again(known[repo].runs[i])
            &&& cache::etag_for(after, repo) == known[repo].etag
        }),
{
    cache::law_unchanged_repo_keeps_its_runs(cache::run_requeued(known, repo, id), slots, repo);
}

/// Signing out is final until the next sign-in: with the token cleared there
/// is no connection, and the modal is up at its intro.
pub proof fn law_signed_out(s: AppView)
    ensures
        step::after_cmd(s, CommandMsg::TokenCleared).0.connection is None,
        step::after_cmd(s, CommandMsg::TokenCleared).0.screen is SignedOut,
        !step::after_cmd(s, CommandMsg::TokenCleared).0.signed_in,
        step::after_cmd(s, CommandMsg::TokenCleared).0.onboarding matches Some(modal)
            && modal.page == OnboardingPage::Intro,
{
}

/// A failed connection is answered by its kind: an auth failure returns to the
/// sign-in with the reason on the modal, any other shows the disconnected page
/// with the reason.
pub proof fn law_failed_connection_is_told(s: AppView, error: ConnectError)
    ensures
        ({
            let (next, effects) = step::connected(s, Err(error));
            &&& next.connection is None
            &&& !next.signed_in
            &&& if error is Auth {
                next.screen is SignedOut && next.onboarding is Some && effects == seq![
                    EffectView::ModalToast(error.spec_message()),
                ]
            } else {
                next.screen == Screen::Disconnected(error.spec_message()) && next.onboarding is None
                    && effects == Seq::<EffectView>::empty()
            }
        }),
{
}

/// The budget that a poll carried is the one the app goes by.
pub proof fn law_poll_refreshes_the_budget(
    s: AppView,
    slots: Seq<client::RepoRunsView>,
    rate: RateLimit,
)
    requires
        s.connection is Some,
    ensures
        step::poll_in(s, slots, Some(rate)).0.connection == Some(
            Connection { rate, ..s.connection.unwrap() },
        ),
{
}

/// What is shown after a poll has the newest runs first.
pub proof fn law_polled_runs_are_newest_first(
    s: AppView,
    slots: Seq<client::RepoRunsView>,
    rate: Option<RateLimit>,
)
    requires
        !step::all_failed(slots),
    ensures
        runs::is_newest_first(step::poll_in(s, slots, rate).0.all_runs),
{
    let known = cache::known_runs(cache::after_slots(s.cache, slots), s.watched);
    runs::law_newest_first(known);
    let sorted = runs::newest_first(known);
    let shown = step::poll_in(s, slots, rate).0.all_runs;
    assert forall|i: int, j: int| 0 <= i < j < shown.len() implies !(
    #[trigger] shown[j]).created_at.after((#[trigger] shown[i]).created_at) by {
        assert(!sorted[j].created_at.after(sorted[i].created_at));
    }
}

} // verus!
