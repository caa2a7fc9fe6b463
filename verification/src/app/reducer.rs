//! The reducer: it takes the messages and moves the model on.

use vstd::prelude::*;
use vstd::string::*;
use std::collections::HashMap;

use crate::app::step;
use crate::app::{effect_views, AppModel, AppMsg, AppView, CommandMsg, Effect, EffectView, Modal, Onboarding, OnboardingPage, Screen, ViewState, FIRST_FOLLOW_UP, SECOND_FOLLOW_UP};
use crate::components::run_row;
use crate::github::cache;
use crate::github::cache::RunCache;
use crate::github::client;
use crate::github::client::{ConnectError, Connection, Poll, PollTarget, RepoRuns, RunsOutcome};
use crate::github::types;
use crate::github::types::{RunAction, RunStatus, WorkflowRun};
use crate::list;
use crate::notify;
use crate::notify::{FinishedRuns, Notification};
use crate::runs;
use crate::settings::Settings;
use crate::text;
use crate::time::Timestamp;

verus! {

/// Add an effect.
fn emit(out: &mut Vec<Effect>, effect: Effect)
    ensures
        effect_views(final(out)@) == effect_views(old(out)@).push(effect@),
{
    let ghost before = out@;
    out.push(effect);
    assert(effect_views(out@) =~= effect_views(before).push(effect@));
}

/// The model at startup: the settings' watch list, nothing else, and a saved
/// token to look for.
pub open spec fn fresh_view(settings: Settings) -> AppView {
    AppView {
        connection: None,
        screen: Screen::Loading,
        device: None,
        auth_gen: 0,
        onboarding: None,
        picker_open: false,
        watched: settings@.watched,
        rows: Seq::empty(),
        all_runs: Seq::empty(),
        runs_loaded: false,
        refreshing: false,
        polling: false,
        hidden: false,
        signed_in: false,
        settings: settings@,
        cache: Map::empty(),
        finished: Map::empty(),
        seeded: false,
        cancelling: Map::empty(),
        detail: None,
    }
}

impl AppModel {
    /// What the model's own data keep to.
    pub closed spec fn well_formed(&self) -> bool {
        self.cache.well_formed()
    }

    /// The model at startup. The one effect is to look for a saved token.
    pub fn init(settings: Settings) -> (r: (Self, Vec<Effect>))
        ensures
            r.0.well_formed(),
            r.0@ == fresh_view(settings),
            effect_views(r.1@) == seq![EffectView::Boot],
    {
        let model = AppModel {
            connection: None,
            state: ViewState::Loading,
            device: None,
            auth_gen: 0,
            onboarding: None,
            picker_open: false,
            watched: list::copy(&settings.watched),
            runs: Vec::new(),
            all_runs: Vec::new(),
            runs_loaded: false,
            refreshing: false,
            polling: false,
            hidden: false,
            signed_in: false,
            settings,
            cache: RunCache::new(),
            finished: FinishedRuns::new(),
            seeded: false,
            cancelling: HashMap::new(),
            detail: None,
        };
        let mut out: Vec<Effect> = Vec::new();
        assert(effect_views(out@) =~= Seq::empty());
        emit(&mut out, Effect::Boot);
        proof {
            assert(run_row::row_views(model.runs@) =~= Seq::empty());
            assert(types::run_views(model.all_runs@) =~= Seq::empty());
            assert(effect_views(out@) =~= seq![EffectView::Boot]);
        }
        (model, out)
    }

    /// Whether there is someone to ask, and something to ask for.
    fn can_poll(&self) -> (r: bool)
        ensures
            r == step::can_poll(self@),
    {
        assert(text::texts(self.watched@).len() == self.watched@.len());
        self.connection.is_some() && self.watched.len() > 0
    }

    /// Start the poll, unless it's already running, the window is hidden or
    /// there's nothing to poll.
    fn start_poll(&mut self, out: &mut Vec<Effect>)
        requires
            old(self).well_formed(),
        ensures
            final(self).well_formed(),
            final(self)@ == step::poll_started(old(self)@).0,
            effect_views(final(out)@) == effect_views(old(out)@) + step::poll_started(
                old(self)@,
            ).1,
    {
        if self.polling || self.hidden || !self.can_poll() {
            assert(effect_views(out@) =~= effect_views(old(out)@) + Seq::<EffectView>::empty());
            return;
        }
        self.polling = true;
        emit(out, Effect::StartTimer(self.settings.poll_interval));
    }

    /// Remove the poll timer, if it runs.
    fn stop_poll(&mut self, out: &mut Vec<Effect>)
        requires
            old(self).well_formed(),
        ensures
            final(self).well_formed(),
            final(self)@ == step::poll_stopped(old(self)@).0,
            effect_views(final(out)@) == effect_views(old(out)@) + step::poll_stopped(
                old(self)@,
            ).1,
    {
        if self.polling {
            self.polling = false;
            emit(out, Effect::StopTimer);
        } else {
            assert(effect_views(out@) =~= effect_views(old(out)@) + Seq::<EffectView>::empty());
        }
    }

    /// Fire off the poll's fetch, unless the window is hidden.
    fn dispatch_refresh(&self, out: &mut Vec<Effect>)
        requires
            self.well_formed(),
        ensures
            effect_views(final(out)@) == effect_views(old(out)@) + step::refresh_of(self@),
    {
        if !self.hidden {
            self.dispatch_fetch(out);
        } else {
            assert(effect_views(out@) =~= effect_views(old(out)@) + Seq::<EffectView>::empty());
        }
    }

    /// Fire off a run-list fetch across the watched repos.
    fn dispatch_fetch(&self, out: &mut Vec<Effect>)
        requires
            self.well_formed(),
        ensures
            effect_views(final(out)@) == effect_views(old(out)@) + step::fetch_of(self@),
    {
        if self.can_poll() {
            let targets: Vec<PollTarget> = self.cache.targets(&self.watched);
            emit(out, Effect::FetchRuns(targets));
        } else {
            assert(effect_views(out@) =~= effect_views(old(out)@) + Seq::<EffectView>::empty());
        }
    }

    /// Bring up the onboarding modal and mark us signed out. A second call just
    /// resets it to the intro.
    fn show_onboarding(&mut self)
        requires
            old(self).well_formed(),
        ensures
            final(self).well_formed(),
            final(self)@ == step::onboarding_shown(old(self)@),
    {
        let code: String = match &self.onboarding {
            Some(modal) => modal.code.clone(),
            None => String::new(),
        };
        self.onboarding = Some(Onboarding { page: OnboardingPage::Intro, code });
        self.state = ViewState::SignedOut;
        self.device = None;
        self.signed_in = false;
        assert(self@ == step::onboarding_shown(old(self)@));
    }

    /// Close the modal (if any), move to the connected app, and start polling.
    fn go_ready(&mut self, connection: Connection, out: &mut Vec<Effect>)
        requires
            old(self).well_formed(),
        ensures
            final(self).well_formed(),
            final(self)@ == step::made_ready(old(self)@, connection).0,
            effect_views(final(out)@) == effect_views(old(out)@) + step::made_ready(
                old(self)@,
                connection,
            ).1,
    {
        self.onboarding = None;
        self.connection = Some(connection);
        self.state = ViewState::Ready;
        self.device = None;
        self.runs_loaded = false;
        self.signed_in = true;
        self.seeded = false;
        self.cache = RunCache::new();
        self.cancelling = HashMap::new();
        // A fresh connection: poll now and on the interval (both no-op if the
        // watch list is empty).
        self.start_poll(out);
        self.dispatch_refresh(out);
        assert(effect_views(out@) =~= effect_views(old(out)@) + step::made_ready(
            old(self)@,
            connection,
        ).1);
    }

    /// Show these runs in place of the rows before.
    fn show_runs(&mut self, shown: Vec<WorkflowRun>, out: &mut Vec<Effect>)
        requires
            old(self).well_formed(),
        ensures
            final(self).well_formed(),
            final(self)@ == (AppView {
                all_runs: types::run_views(shown@),
                rows: types::run_views(shown@),
                ..old(self)@
            }),
            effect_views(final(out)@) == effect_views(old(out)@).push(
                step::rows_effect(old(self)@.rows, types::run_views(shown@)),
            ),
    {
        let in_place: bool = runs::apply_runs(&mut self.runs, &shown);
        self.all_runs = shown;
        if in_place {
            emit(out, Effect::UpdateRows);
        } else {
            emit(out, Effect::RebuildRows);
        }
    }

    /// Hand fresh data to the open detail page, if its run is there.
    fn refresh_detail(&self, out: &mut Vec<Effect>)
        ensures
            effect_views(final(out)@) == effect_views(old(out)@) + step::detail_effects(self@),
    {
        if let Some(id) = self.detail {
            if let Some(i) = runs::find(&self.all_runs, id) {
                emit(out, Effect::RefreshDetails(self.all_runs[i].clone()));
                return;
            }
        }
        assert(effect_views(out@) =~= effect_views(old(out)@) + Seq::<EffectView>::empty());
    }

    /// Take the runs that came in.
    #[verifier::spinoff_prover]
    #[verifier::rlimit(30)]
    fn take_runs(&mut self, loaded: Vec<WorkflowRun>, out: &mut Vec<Effect>)
        requires
            old(self).well_formed(),
        ensures
            final(self).well_formed(),
            final(self)@ == step::runs_in(old(self)@, types::run_views(loaded@)).0,
            effect_views(final(out)@) == effect_views(old(out)@) + step::runs_in(
                old(self)@,
                types::run_views(loaded@),
            ).1,
    {
        let ghost views = types::run_views(loaded@);
        let silent: bool = !self.seeded;
        let due: Vec<Notification> = self.finished.observe(&loaded, self.settings.notify, silent);
        self.seeded = true;
        runs::settle(&mut self.cancelling, &loaded);
        let shown: Vec<WorkflowRun> = runs::overlay(loaded, &self.cancelling);
        self.runs_loaded = true;
        self.refreshing = false;
        self.show_runs(shown, out);
        let ghost first = effect_views(out@);
        let ghost alerts = notify::notification_views(due@);
        assert(first + step::notify_effects(alerts.take(0)) =~= first);
        for notification in it: due
            invariant
                it.seq() == due@,
                alerts == notify::notification_views(due@),
                effect_views(out@) == first + step::notify_effects(alerts.take(it.index() as int)),
        {
            let ghost i = it.index() as int;
            let ghost before = effect_views(out@);
            emit(out, Effect::Notify(notification));
            assert(alerts[i] == notification@);
            assert(step::notify_effects(alerts.take(i + 1)) =~= step::notify_effects(
                alerts.take(i),
            ).push(EffectView::Notify(notification@)));
            assert(effect_views(out@) =~= first + step::notify_effects(alerts.take(i + 1)));
        }
        assert(alerts.take(alerts.len() as int) =~= alerts);
        self.refresh_detail(out);
        assert(effect_views(out@) =~= effect_views(old(out)@) + step::runs_in(
            old(self)@,
            views,
        ).1);
    }

    /// Every repo failed.
    fn fail_runs(&mut self, reason: String, out: &mut Vec<Effect>)
        requires
            old(self).well_formed(),
        ensures
            final(self).well_formed(),
            final(self)@ == step::runs_failed(old(self)@, reason@).0,
            effect_views(final(out)@) == effect_views(old(out)@) + step::runs_failed(
                old(self)@,
                reason@,
            ).1,
    {
        self.refreshing = false;
        if self.runs_loaded {
            // We already have runs; a transient failure shouldn't wipe them.
            let mut message: String = "Couldn't refresh: ".to_owned();
            message.append(reason.as_str());
            emit(out, Effect::Toast(message));
        } else {
            self.stop_poll(out);
            self.state = ViewState::Disconnected(reason);
        }
    }

    /// Take a poll that came back.
    fn take_poll(&mut self, poll: Poll, out: &mut Vec<Effect>)
        requires
            old(self).well_formed(),
        ensures
            final(self).well_formed(),
            final(self)@ == step::poll_in(
                old(self)@,
                client::slot_views(poll.repos@),
                poll.rate,
            ).0,
            effect_views(final(out)@) == effect_views(old(out)@) + step::poll_in(
                old(self)@,
                client::slot_views(poll.repos@),
                poll.rate,
            ).1,
    {
        let ghost slots = client::slot_views(poll.repos@);
        let failure: Option<String> = first_failure(&poll.repos);
        if let Some(rate) = poll.rate {
            if let Some(connection) = &self.connection {
                self.connection = Some(Connection { login: connection.login.clone(), rate });
            }
        }
        self.cache.absorb(poll.repos);
        assert(self@ == step::poll_absorbed(old(self)@, slots, poll.rate));
        match failure {
            Some(reason) => self.fail_runs(reason, out),
            None => {
                let known: Vec<WorkflowRun> = self.cache.known(&self.watched);
                let sorted: Vec<WorkflowRun> = runs::sort_runs(known);
                self.take_runs(sorted, out);
            },
        }
    }
}

impl AppModel {
    /// Take an action on a run.
    #[verifier::spinoff_prover]
    #[verifier::rlimit(30)]
    fn act(&mut self, id: u64, action: RunAction, out: &mut Vec<Effect>)
        requires
            old(self).well_formed(),
        ensures
            final(self).well_formed(),
            final(self)@ == step::acted(old(self)@, id, action).0,
            effect_views(final(out)@) == effect_views(old(out)@) + step::acted(
                old(self)@,
                id,
                action,
            ).1,
    {
        broadcast use vstd::std_specs::hash::group_hash_axioms;

        if let Some(i) = runs::find(&self.all_runs, id) {
            let status: RunStatus = self.all_runs[i].status;
            let failing: bool = match self.all_runs[i].conclusion {
                Some(conclusion) => conclusion.is_failure(),
                None => false,
            };
            let repo: String = self.all_runs[i].repo.clone();
            let at_rest: bool = !status.is_active() && status != RunStatus::Cancelling;
            let allowed: bool = match action {
                RunAction::Cancel => status.is_active(),
                RunAction::Rerun => at_rest,
                RunAction::RerunFailed => at_rest && failing,
            };
            if allowed {
                let shown: Vec<WorkflowRun> = match action {
                    RunAction::Cancel => {
                        self.cancelling.insert(id, status);
                        show_cancelling(&self.all_runs, id)
                    },
                    _ => {
                        self.cache.requeue(repo.as_str(), id);
                        cache::requeue_runs(&self.all_runs, id)
                    },
                };
                self.show_runs(shown, out);
                emit(out, Effect::Act { repo, id, action });
                self.refresh_detail(out);
                assert(effect_views(out@) =~= effect_views(old(out)@) + step::acted(
                    old(self)@,
                    id,
                    action,
                ).1);
                return;
            }
        }
        assert(effect_views(out@) =~= effect_views(old(out)@) + Seq::<EffectView>::empty());
    }

    /// Take an action that was refused.
    #[verifier::spinoff_prover]
    #[verifier::rlimit(30)]
    fn refuse_action(&mut self, repo: &str, id: u64, reason: String, out: &mut Vec<Effect>)
        requires
            old(self).well_formed(),
        ensures
            final(self).well_formed(),
            final(self)@ == step::action_refused(old(self)@, repo@, id, reason@).0,
            effect_views(final(out)@) == effect_views(old(out)@) + step::action_refused(
                old(self)@,
                repo@,
                id,
                reason@,
            ).1,
    {
        let ghost told = reason@;
        let shown: Vec<WorkflowRun> = self.uncancel(id);
        self.cache.forget_etag(repo);
        self.show_runs(shown, out);
        emit(out, Effect::Toast(reason));
        self.refresh_detail(out);
        self.dispatch_refresh(out);
        assert(effect_views(out@) =~= effect_views(old(out)@) + step::action_refused(
            old(self)@,
            repo@,
            id,
            told,
        ).1);
    }

    /// Give up cancelling a run, and tell how the runs are to be shown.
    fn uncancel(&mut self, id: u64) -> (r: Vec<WorkflowRun>)
        requires
            old(self).well_formed(),
        ensures
            final(self).well_formed(),
            final(self)@ == (AppView {
                cancelling: old(self)@.cancelling.remove(id),
                ..old(self)@
            }),
            types::run_views(r@) == step::uncancelled(old(self)@, id),
    {
        broadcast use vstd::std_specs::hash::group_hash_axioms;

        let was: Option<RunStatus> = self.cancelling.remove(&id);
        match was {
            Some(status) => runs::restore(&self.all_runs, id, status),
            None => cache::copy_runs(&self.all_runs),
        }
    }

    /// Take a new watch set.
    #[verifier::spinoff_prover]
    #[verifier::rlimit(30)]
    fn save_watchlist(&mut self, names: Vec<String>, out: &mut Vec<Effect>)
        requires
            old(self).well_formed(),
        ensures
            final(self).well_formed(),
            final(self)@ == step::watchlist_saved(old(self)@, text::texts(names@)).0,
            effect_views(final(out)@) == effect_views(old(out)@) + step::watchlist_saved(
                old(self)@,
                text::texts(names@),
            ).1,
    {
        let ghost wanted = text::texts(names@);
        self.watched = list::copy(&names);
        self.settings.watched = names;
        emit(out, Effect::SaveSettings(self.settings.save()));
        // The dialog closed itself on Save.
        self.picker_open = false;
        // The watch set changed: clear the old runs and re-poll from scratch
        // (both no-op if the set is now empty).
        self.all_runs = Vec::new();
        self.runs = Vec::new();
        self.runs_loaded = false;
        self.cache = RunCache::new();
        self.cancelling = HashMap::new();
        emit(out, Effect::RebuildRows);
        proof {
            assert(run_row::row_views(self.runs@) =~= Seq::empty());
            assert(types::run_views(self.all_runs@) =~= Seq::empty());
        }
        self.stop_poll(out);
        self.start_poll(out);
        self.dispatch_refresh(out);
        assert(effect_views(out@) =~= effect_views(old(out)@) + step::watchlist_saved(
            old(self)@,
            wanted,
        ).1);
    }

    /// Take a new poll interval.
    fn set_interval(&mut self, seconds: u32, out: &mut Vec<Effect>)
        requires
            old(self).well_formed(),
        ensures
            final(self).well_formed(),
            final(self)@ == step::interval_set(old(self)@, seconds).0,
            effect_views(final(out)@) == effect_views(old(out)@) + step::interval_set(
                old(self)@,
                seconds,
            ).1,
    {
        if seconds > 0 {
            self.settings.poll_interval = seconds;
            emit(out, Effect::SaveSettings(self.settings.save()));
            if self.polling {
                self.stop_poll(out);
                self.start_poll(out);
            }
        }
        assert(effect_views(out@) =~= effect_views(old(out)@) + step::interval_set(
            old(self)@,
            seconds,
        ).1);
    }

    /// The window was hidden or shown.
    fn set_hidden(&mut self, hidden: bool, out: &mut Vec<Effect>)
        requires
            old(self).well_formed(),
        ensures
            final(self).well_formed(),
            final(self)@ == step::visibility_set(old(self)@, hidden).0,
            effect_views(final(out)@) == effect_views(old(out)@) + step::visibility_set(
                old(self)@,
                hidden,
            ).1,
    {
        self.hidden = hidden;
        if hidden {
            self.stop_poll(out);
        } else {
            let ready: bool = match self.state {
                ViewState::Ready => true,
                _ => false,
            };
            self.start_poll(out);
            // Whatever we last drew is as stale as the pause was long, so
            // refresh now rather than waiting for the first tick.
            if ready {
                self.dispatch_refresh(out);
            }
        }
        assert(effect_views(out@) =~= effect_views(old(out)@) + step::visibility_set(
            old(self)@,
            hidden,
        ).1);
    }

    /// The About dialog's debug info.
    fn debug_info(&self) -> (r: String)
        ensures
            r@ == step::debug_info(self@),
    {
        match &self.connection {
            Some(connection) => {
                let mut out: String = "Signed in as ".to_owned();
                out.append(connection.login.as_str());
                out.append("\nRate limit: ");
                let remaining: String = text::number(connection.rate.remaining);
                out.append(remaining.as_str());
                out.append(" / ");
                let limit: String = text::number(connection.rate.limit);
                out.append(limit.as_str());
                out.append(" requests remaining this hour");
                out
            },
            None => "Not connected".to_owned(),
        }
    }

    /// Turn the onboarding modal, if it is up, to a page.
    fn turn_modal(&mut self, page: OnboardingPage)
        requires
            old(self).well_formed(),
        ensures
            final(self).well_formed(),
            final(self)@ == (AppView {
                onboarding: step::on_page(old(self)@.onboarding, page),
                ..old(self)@
            }),
    {
        if let Some(modal) = &self.onboarding {
            let code: String = modal.code.clone();
            self.onboarding = Some(Onboarding { page, code });
        }
    }

    /// Let the onboarding modal, if it is up, wait with a code.
    fn await_with(&mut self, code: &str)
        requires
            old(self).well_formed(),
        ensures
            final(self).well_formed(),
            final(self)@ == (AppView {
                onboarding: match old(self)@.onboarding {
                    Some(_) => Some(Modal { page: OnboardingPage::Awaiting, code: code@ }),
                    None => None,
                },
                ..old(self)@
            }),
    {
        if self.onboarding.is_some() {
            self.onboarding = Some(
                Onboarding { page: OnboardingPage::Awaiting, code: code.to_owned() },
            );
        }
    }

    /// Take a message, at the time `now`, and tell what the window is to do.
    #[verifier::spinoff_prover]
    #[verifier::rlimit(30)]
    pub fn update(&mut self, msg: AppMsg, now: Timestamp) -> (r: Vec<Effect>)
        requires
            old(self).well_formed(),
            msg is SignIn || msg is CancelAuth ==> old(self)@.auth_gen < u64::MAX,
        ensures
            final(self).well_formed(),
            final(self)@ == step::after(old(self)@, msg, now).0,
            effect_views(r@) == step::after(old(self)@, msg, now).1,
    {
        let mut out: Vec<Effect> = Vec::new();
        assert(effect_views(out@) =~= Seq::empty());
        match msg {
            AppMsg::SignIn => {
                self.auth_gen += 1;
                let generation: u64 = self.auth_gen;
                self.await_with("…");
                emit(&mut out, Effect::StartDeviceFlow { generation });
            },
            AppMsg::OpenVerification => {
                if let Some((_, uri)) = &self.device {
                    emit(&mut out, Effect::OpenUri(uri.clone()));
                }
            },
            AppMsg::CopyCode => {
                if let Some((code, _)) = &self.device {
                    emit(&mut out, Effect::CopyText(code.clone()));
                }
                if self.onboarding.is_some() {
                    emit(&mut out, Effect::ModalToast("Code copied".to_owned()));
                }
            },
            AppMsg::CancelAuth => {
                self.auth_gen += 1;
                self.device = None;
                self.turn_modal(OnboardingPage::Intro);
            },
            AppMsg::SignOut => {
                emit(&mut out, Effect::ClearToken);
            },
            AppMsg::EditWatchlist => {
                if self.connection.is_some() {
                    emit(&mut out, Effect::OpenPicker(list::copy(&self.watched)));
                    self.picker_open = true;
                }
            },
            AppMsg::WatchlistSaved(names) => {
                self.save_watchlist(names, &mut out);
            },
            AppMsg::Retry => {
                self.state = ViewState::Loading;
                emit(&mut out, Effect::Boot);
            },
            AppMsg::Refresh => {
                let spent: bool = match &self.connection {
                    Some(connection) => connection.rate.is_exhausted_at(now),
                    None => false,
                };
                if !spent {
                    self.dispatch_refresh(&mut out);
                }
            },
            AppMsg::ManualRefresh => {
                self.refreshing = true;
                self.dispatch_fetch(&mut out);
            },
            AppMsg::OpenInBrowser(url) => {
                emit(&mut out, Effect::OpenUri(url));
            },
            AppMsg::ShowDetails(id) => {
                if let Some(i) = runs::find(&self.all_runs, id) {
                    self.detail = Some(id);
                    emit(&mut out, Effect::OpenDetails(self.all_runs[i].clone()));
                }
            },
            AppMsg::DetailsClosed => {
                self.detail = None;
            },
            AppMsg::Act { id, action } => {
                self.act(id, action, &mut out);
            },
            AppMsg::SuspendedChanged(suspended) => {
                self.set_hidden(suspended, &mut out);
            },
            AppMsg::SetTheme(theme) => {
                self.settings.theme = theme;
                emit(&mut out, Effect::SaveSettings(self.settings.save()));
                emit(&mut out, Effect::ApplyTheme(self.settings.apply_theme()));
            },
            AppMsg::SetNotify(notify) => {
                self.settings.notify = notify;
                emit(&mut out, Effect::SaveSettings(self.settings.save()));
            },
            AppMsg::SetPollInterval(seconds) => {
                self.set_interval(seconds, &mut out);
            },
            AppMsg::ShowAbout => {
                emit(&mut out, Effect::ShowAbout(self.debug_info()));
            },
        }
        assert(effect_views(out@) =~= step::after(old(self)@, msg, now).1);
        out
    }

    /// Take a connection attempt's outcome.
    fn take_connection(
        &mut self,
        result: Result<Connection, ConnectError>,
        out: &mut Vec<Effect>,
    )
        requires
            old(self).well_formed(),
        ensures
            final(self).well_formed(),
            final(self)@ == step::connected(old(self)@, result).0,
            effect_views(final(out)@) == effect_views(old(out)@) + step::connected(
                old(self)@,
                result,
            ).1,
    {
        match result {
            Ok(connection) => self.go_ready(connection, out),
            Err(error) => {
                if error.is_auth() {
                    // A stored token that's now invalid: onboarding, with the
                    // reason toasted onto the modal.
                    self.connection = None;
                    self.show_onboarding();
                    emit(out, Effect::ModalToast(error.message().to_owned()));
                } else {
                    self.onboarding = None;
                    self.connection = None;
                    self.state = ViewState::Disconnected(error.message().to_owned());
                    self.signed_in = false;
                }
                assert(effect_views(out@) =~= effect_views(old(out)@) + step::connected(
                    old(self)@,
                    Err(error),
                ).1);
            },
        }
    }

    /// Take the end of a device flow that is still wanted.
    fn take_device_result(
        &mut self,
        result: Result<Connection, ConnectError>,
        out: &mut Vec<Effect>,
    )
        requires
            old(self).well_formed(),
        ensures
            final(self).well_formed(),
            final(self)@ == step::device_finished(old(self)@, result).0,
            effect_views(final(out)@) == effect_views(old(out)@) + step::device_finished(
                old(self)@,
                result,
            ).1,
    {
        self.device = None;
        match result {
            Ok(connection) => self.go_ready(connection, out),
            Err(error) => {
                // Denied, timed out, or a blip after authorising: back to the
                // intro, with the reason toasted onto the modal.
                self.turn_modal(OnboardingPage::Intro);
                if self.onboarding.is_some() {
                    emit(out, Effect::ModalToast(error.message().to_owned()));
                }
                assert(effect_views(out@) =~= effect_views(old(out)@) + step::device_finished(
                    old(self)@,
                    Err(error),
                ).1);
            },
        }
    }

    /// Take a result of outside work, and tell what the window is to do.
    #[verifier::spinoff_prover]
    #[verifier::rlimit(30)]
    pub fn update_cmd(&mut self, msg: CommandMsg) -> (r: Vec<Effect>)
        requires
            old(self).well_formed(),
        ensures
            final(self).well_formed(),
            final(self)@ == step::after_cmd(old(self)@, msg).0,
            effect_views(r@) == step::after_cmd(old(self)@, msg).1,
    {
        let mut out: Vec<Effect> = Vec::new();
        assert(effect_views(out@) =~= Seq::empty());
        match msg {
            CommandMsg::Connected(result) => {
                self.take_connection(*result, &mut out);
            },
            CommandMsg::NoToken => {
                self.show_onboarding();
            },
            CommandMsg::TokenCleared => {
                self.connection = None;
                self.show_onboarding();
            },
            CommandMsg::DeviceCode { generation, user_code, verification_uri } => {
                if generation == self.auth_gen {
                    self.await_with(user_code.as_str());
                    // Open the browser to the device page and copy the code, so
                    // the user just enters it and approves.
                    emit(&mut out, Effect::CopyText(user_code.clone()));
                    emit(&mut out, Effect::OpenUri(verification_uri.clone()));
                    self.device = Some((user_code, verification_uri));
                }
            },
            CommandMsg::DeviceResult { generation, result } => {
                if generation == self.auth_gen {
                    self.take_device_result(*result, &mut out);
                }
            },
            CommandMsg::Polled(poll) => {
                self.take_poll(poll, &mut out);
            },
            CommandMsg::RunsLoaded(loaded) => {
                self.take_runs(loaded, &mut out);
            },
            CommandMsg::RunsFailed(reason) => {
                self.fail_runs(reason, &mut out);
            },
            CommandMsg::ActionDone { repo, id, outcome } => match outcome {
                Ok(_) => {
                    if !self.hidden {
                        self.dispatch_refresh(&mut out);
                        emit(&mut out, Effect::RefreshLater(FIRST_FOLLOW_UP));
                        emit(&mut out, Effect::RefreshLater(SECOND_FOLLOW_UP));
                    }
                },
                Err(reason) => {
                    self.refuse_action(repo.as_str(), id, reason, &mut out);
                },
            },
        }
        assert(effect_views(out@) =~= step::after_cmd(old(self)@, msg).1);
        out
    }
}

/// The runs with one shown as being cancelled.
fn show_cancelling(shown: &Vec<WorkflowRun>, id: u64) -> (r: Vec<WorkflowRun>)
    ensures
        types::run_views(r@) == step::acted_runs(
            types::run_views(shown@),
            id,
            RunAction::Cancel,
        ),
{
    let mut out: Vec<WorkflowRun> = Vec::new();
    let ghost views = types::run_views(shown@);
    let ghost wanted = step::acted_runs(views, id, RunAction::Cancel);
    let mut i: usize = 0;
    assert(types::run_views(out@) =~= wanted.take(0));
    while i < shown.len()
        invariant
            i <= shown@.len(),
            views == types::run_views(shown@),
            wanted == step::acted_runs(views, id, RunAction::Cancel),
            types::run_views(out@) == wanted.take(i as int),
        decreases shown@.len() - i,
    {
        let mut run: WorkflowRun = shown[i].clone();
        if run.id == id {
            run.status = RunStatus::Cancelling;
        }
        let ghost before = out@;
        out.push(run);
        assert(views[i as int] == shown@[i as int]@);
        assert(wanted[i as int] == run@);
        i += 1;
        assert(types::run_views(out@) =~= types::run_views(before).push(run@));
        assert(types::run_views(out@) =~= wanted.take(i as int));
    }
    assert(wanted.take(i as int) =~= wanted);
    out
}

/// The first message of a poll whose every slot failed.
fn first_failure(slots: &Vec<RepoRuns>) -> (r: Option<String>)
    ensures
        match r {
            Some(message) => step::all_failed(client::slot_views(slots@)) && message@
                == client::slot_views(slots@)[0].outcome->Failed_0,
            None => !step::all_failed(client::slot_views(slots@)),
        },
{
    let ghost views = client::slot_views(slots@);
    let mut i: usize = 0;
    while i < slots.len()
        invariant
            i <= slots@.len(),
            views == client::slot_views(slots@),
            forall|j: int| 0 <= j < i ==> (#[trigger] views[j]).outcome is Failed,
        decreases slots@.len() - i,
    {
        assert(views[i as int] == slots@[i as int]@);
        match slots[i].outcome {
            RunsOutcome::Failed(_) => {},
            _ => {
                assert(!(views[i as int].outcome is Failed));
                return None;
            },
        }
        i += 1;
    }
    if slots.len() == 0 {
        return None;
    }
    assert(views[0] == slots@[0]@);
    match &slots[0].outcome {
        RunsOutcome::Failed(message) => Some(message.clone()),
        _ => None,
    }
}

} // verus!
