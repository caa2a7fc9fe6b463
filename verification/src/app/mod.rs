//! The root of the app: one model, one reducer. Messages go in, the model
//! moves on, and the effects come out for the window to perform. Nothing here
//! touches the network, the keyring or the screen.

use vstd::prelude::*;
use vstd::string::*;
use std::collections::HashMap;

use crate::components::run_row;
use crate::components::run_row::RunRow;
use crate::github::cache;
use crate::github::cache::RunCache;
use crate::github::client;
use crate::github::client::{ConnectError, Connection, Poll, PollTarget};
use crate::github::types;
use crate::github::types::{RunAction, RunStatus, WorkflowRun};
use crate::notify;
use crate::notify::{FinishedRuns, Notification};
use crate::settings;
use crate::settings::{ColorScheme, NotifyOn, Settings, SettingsFile, Theme};
use crate::text;
use crate::time::Timestamp;

pub mod laws;
pub mod moves;
pub mod pages;
pub mod reducer;
pub mod session;
pub mod step;

verus! {

/// The screen the main window shows (behind the onboarding modal, when that's
/// up).
#[derive(Debug)]
pub enum ViewState {
    /// Verifying a saved token at startup.
    Loading,
    /// Not signed in: the onboarding modal is presented over a neutral backdrop.
    SignedOut,
    /// Connected and verified.
    Ready,
    /// Couldn't connect for a non-auth reason (offline, 403, …). Carries the
    /// reason.
    Disconnected(String),
}

/// What the screen holds.
pub ghost enum Screen {
    Loading,
    SignedOut,
    Ready,
    Disconnected(Seq<char>),
}

impl View for ViewState {
    type V = Screen;

    open spec fn view(&self) -> Screen {
        match *self {
            ViewState::Loading => Screen::Loading,
            ViewState::SignedOut => Screen::SignedOut,
            ViewState::Ready => Screen::Ready,
            ViewState::Disconnected(reason) => Screen::Disconnected(reason@),
        }
    }
}

/// The page of the onboarding modal.
#[derive(Debug, Clone, Copy, PartialEq, Eq, Structural)]
pub enum OnboardingPage {
    Intro,
    /// Waiting for the user to authorise in the browser.
    Awaiting,
}

/// The onboarding modal, while it is shown. It cannot be dismissed: you sign
/// in or you quit.
#[derive(Debug)]
pub struct Onboarding {
    pub page: OnboardingPage,
    /// The code shown on the awaiting page.
    pub code: String,
}

/// What the modal holds.
pub ghost struct Modal {
    pub page: OnboardingPage,
    pub code: Seq<char>,
}

/// How many runs the Recent tab shows at most.
pub const RECENT_CAP: usize = 50;

/// The seconds after which a run action is followed up.
pub const FIRST_FOLLOW_UP: u32 = 3;

/// The seconds after which it is followed up once more.
pub const SECOND_FOLLOW_UP: u32 = 9;

/// The messages of the window.
#[derive(Debug)]
pub enum AppMsg {
    /// "Sign in with GitHub" (from the onboarding modal): start the device flow.
    SignIn,
    /// Re-open github.com/login/device in the browser.
    OpenVerification,
    /// Copy the current user code to the clipboard.
    CopyCode,
    /// Abandon the in-progress sign-in and return to the intro.
    CancelAuth,
    /// "Sign Out": forget the token and return to onboarding.
    SignOut,
    /// Open the repo picker (menu item or empty-state button).
    EditWatchlist,
    /// The picker saved a new watch set.
    WatchlistSaved(Vec<String>),
    /// "Try Again" on the disconnected page: re-run the startup connect.
    Retry,
    /// The background poll tick (silent): reload the runs.
    Refresh,
    /// A user-triggered refresh (menu / Ctrl+R): reload, and spin the header.
    ManualRefresh,
    /// Open a run on github.com.
    OpenInBrowser(String),
    /// Open a run's detail page (a row was activated).
    ShowDetails(u64),
    /// The detail page was left.
    DetailsClosed,
    /// Re-run or cancel a run.
    Act { id: u64, action: RunAction },
    /// The window became visible / hidden: gates the poll.
    SuspendedChanged(bool),
    SetTheme(Theme),
    SetNotify(NotifyOn),
    /// Seconds between two polls.
    SetPollInterval(u32),
    /// Open the About dialog (primary menu).
    ShowAbout,
}

/// Results of work done outside, landing back in the model.
#[derive(Debug)]
pub enum CommandMsg {
    /// The startup connect finished (saved token from the keyring).
    Connected(Box<Result<Connection, ConnectError>>),
    /// Startup found no saved token.
    NoToken,
    /// The token was cleared from the keyring.
    TokenCleared,
    /// Device flow step 1: GitHub returned a user code to show.
    DeviceCode { generation: u64, user_code: String, verification_uri: String },
    /// Device flow finished: authorised (and verified) or failed.
    DeviceResult { generation: u64, result: Box<Result<Connection, ConnectError>> },
    /// A poll came back, repo by repo.
    Polled(Poll),
    /// The runs across the watched repos.
    RunsLoaded(Vec<WorkflowRun>),
    /// A poll failed for every watched repo (offline / bad token).
    RunsFailed(String),
    /// A run action was taken or refused.
    ActionDone { repo: String, id: u64, outcome: Result<(), String> },
}

/// What the window is to do.
#[derive(Debug)]
pub enum Effect {
    /// Run the device flow, its results stamped with the generation.
    StartDeviceFlow { generation: u64 },
    /// Open a page in the user's browser.
    OpenUri(String),
    CopyText(String),
    /// Show a toast on the onboarding modal.
    ModalToast(String),
    /// Show a toast on the window.
    Toast(String),
    /// Clear the token from the keyring.
    ClearToken,
    /// Open the repo picker with this watch set ticked.
    OpenPicker(Vec<String>),
    SaveSettings(SettingsFile),
    ApplyTheme(ColorScheme),
    /// Poll these repos.
    FetchRuns(Vec<PollTarget>),
    /// Start the poll timer, with this interval in seconds.
    StartTimer(u32),
    /// Remove the poll timer.
    StopTimer,
    /// Send one more refresh after this many seconds.
    RefreshLater(u32),
    /// Load the saved token and connect.
    Boot,
    /// The run rows changed, their ids did not: update them in place.
    UpdateRows,
    /// The run rows' ids changed: rebuild the list.
    RebuildRows,
    Notify(Notification),
    /// Open this run's detail page.
    OpenDetails(WorkflowRun),
    /// Hand fresh data to the open detail page.
    RefreshDetails(WorkflowRun),
    /// Ask GitHub to re-run or cancel a run.
    Act { repo: String, id: u64, action: RunAction },
    /// Open the About dialog, with this debug info.
    ShowAbout(String),
}

/// What an effect holds.
pub ghost enum EffectView {
    StartDeviceFlow { generation: u64 },
    OpenUri(Seq<char>),
    CopyText(Seq<char>),
    ModalToast(Seq<char>),
    Toast(Seq<char>),
    ClearToken,
    OpenPicker(Seq<Seq<char>>),
    SaveSettings(settings::SettingsFileView),
    ApplyTheme(ColorScheme),
    FetchRuns(Seq<client::TargetView>),
    StartTimer(u32),
    StopTimer,
    RefreshLater(u32),
    Boot,
    UpdateRows,
    RebuildRows,
    Notify(notify::NotificationView),
    OpenDetails(types::RunView),
    RefreshDetails(types::RunView),
    Act { repo: Seq<char>, id: u64, action: RunAction },
    ShowAbout(Seq<char>),
}

impl View for Effect {
    type V = EffectView;

    open spec fn view(&self) -> EffectView {
        match *self {
            Effect::StartDeviceFlow { generation } => EffectView::StartDeviceFlow { generation },
            Effect::OpenUri(uri) => EffectView::OpenUri(uri@),
            Effect::CopyText(t) => EffectView::CopyText(t@),
            Effect::ModalToast(t) => EffectView::ModalToast(t@),
            Effect::Toast(t) => EffectView::Toast(t@),
            Effect::ClearToken => EffectView::ClearToken,
            Effect::OpenPicker(watched) => EffectView::OpenPicker(text::texts(watched@)),
            Effect::SaveSettings(file) => EffectView::SaveSettings(file@),
            Effect::ApplyTheme(scheme) => EffectView::ApplyTheme(scheme),
            Effect::FetchRuns(targets) => EffectView::FetchRuns(client::target_views(targets@)),
            Effect::StartTimer(seconds) => EffectView::StartTimer(seconds),
            Effect::StopTimer => EffectView::StopTimer,
            Effect::RefreshLater(seconds) => EffectView::RefreshLater(seconds),
            Effect::Boot => EffectView::Boot,
            Effect::UpdateRows => EffectView::UpdateRows,
            Effect::RebuildRows => EffectView::RebuildRows,
            Effect::Notify(notification) => EffectView::Notify(notification@),
            Effect::OpenDetails(run) => EffectView::OpenDetails(run@),
            Effect::RefreshDetails(run) => EffectView::RefreshDetails(run@),
            Effect::Act { repo, id, action } => EffectView::Act { repo: repo@, id, action },
            Effect::ShowAbout(info) => EffectView::ShowAbout(info@),
        }
    }
}

/// What a list of effects holds.
pub open spec fn effect_views(effects: Seq<Effect>) -> Seq<EffectView> {
    effects.map_values(|e: Effect| e@)
}

/// The model.
pub struct AppModel {
    connection: Option<Connection>,
    state: ViewState,
    /// The current device flow's (user_code, verification_uri), for the
    /// copy/open buttons. `Some` only while a sign-in is in flight.
    device: Option<(String, String)>,
    /// Bumped on every sign-in and every cancel, and stamped onto each device
    /// command. A result whose generation no longer matches is from a flow the
    /// user has since cancelled or superseded, so it's ignored.
    auth_gen: u64,
    onboarding: Option<Onboarding>,
    /// Whether the repo picker is open.
    picker_open: bool,
    /// The watched repos as `owner/name`, mirrored from settings for the view.
    watched: Vec<String>,
    /// The visible run rows, reconciled in place from `all_runs`.
    runs: Vec<RunRow>,
    /// The full run set from the last poll: what the header count and the
    /// reconcile read.
    all_runs: Vec<WorkflowRun>,
    /// Whether a poll has landed since connecting: tells "still loading" apart
    /// from "genuinely no runs".
    runs_loaded: bool,
    /// A refresh the user asked for: shows the header spinner. The background
    /// poll is silent.
    refreshing: bool,
    /// Whether the poll timer runs. It is removed outright while the window is
    /// hidden.
    polling: bool,
    /// Whether the window is hidden: nothing is polled meanwhile.
    hidden: bool,
    /// Whether the signed-in-only menu items are offered.
    signed_in: bool,
    settings: Settings,
    /// What is known of each repo between polls.
    cache: RunCache,
    /// How and when runs finished, as far as seen.
    finished: FinishedRuns,
    /// Whether a poll has put its runs on record since connecting: the first
    /// one does so silently.
    seeded: bool,
    /// The runs being cancelled, with the status they had.
    cancelling: HashMap<u64, RunStatus>,
    /// The run whose detail page is open.
    detail: Option<u64>,
}

/// What the model holds.
pub ghost struct AppView {
    pub connection: Option<Connection>,
    pub screen: Screen,
    pub device: Option<(Seq<char>, Seq<char>)>,
    pub auth_gen: u64,
    pub onboarding: Option<Modal>,
    pub picker_open: bool,
    pub watched: Seq<Seq<char>>,
    pub rows: Seq<types::RunView>,
    pub all_runs: Seq<types::RunView>,
    pub runs_loaded: bool,
    pub refreshing: bool,
    pub polling: bool,
    pub hidden: bool,
    pub signed_in: bool,
    pub settings: settings::SettingsView,
    pub cache: Map<Seq<char>, cache::CachedRuns>,
    pub finished: Map<u64, (types::Conclusion, Timestamp)>,
    pub seeded: bool,
    pub cancelling: Map<u64, RunStatus>,
    pub detail: Option<u64>,
}

impl View for AppModel {
    type V = AppView;

    closed spec fn view(&self) -> AppView {
        AppView {
            connection: self.connection,
            screen: self.state@,
            device: match self.device {
                Some((code, uri)) => Some((code@, uri@)),
                None => None,
            },
            auth_gen: self.auth_gen,
            onboarding: match self.onboarding {
                Some(modal) => Some(Modal { page: modal.page, code: modal.code@ }),
                None => None,
            },
            picker_open: self.picker_open,
            watched: text::texts(self.watched@),
            rows: run_row::row_views(self.runs@),
            all_runs: types::run_views(self.all_runs@),
            runs_loaded: self.runs_loaded,
            refreshing: self.refreshing,
            polling: self.polling,
            hidden: self.hidden,
            signed_in: self.signed_in,
            settings: self.settings@,
            cache: self.cache@,
            finished: self.finished@,
            seeded: self.seeded,
            cancelling: self.cancelling@,
            detail: self.detail,
        }
    }
}

} // verus!
