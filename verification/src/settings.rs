//! Preferences, as they are kept in a small key file: the theme, the watched
//! repositories, when to notify and how often to poll. Never the token.

use vstd::prelude::*;
use vstd::string::*;

use crate::github::types;
use crate::list;
use crate::text;

verus! {

/// The window's colour scheme: follow the desktop, or force light/dark.
#[derive(Debug, Clone, Copy, PartialEq, Eq, Structural)]
pub enum Theme {
    /// Follow the system light/dark preference.
    System,
    Light,
    Dark,
}

impl Default for Theme {
    fn default() -> (r: Self)
        ensures
            r == Theme::System,
    {
        Theme::System
    }
}

/// What the desktop is told about light and dark.
#[derive(Debug, Clone, Copy, PartialEq, Eq, Structural)]
pub enum ColorScheme {
    /// Follow the system.
    Default,
    ForceLight,
    ForceDark,
}

impl Theme {
    /// The colour scheme this maps to. `Force*` overrides the system.
    pub fn color_scheme(self) -> (r: ColorScheme)
        ensures
            r == match self {
                Theme::System => ColorScheme::Default,
                Theme::Light => ColorScheme::ForceLight,
                Theme::Dark => ColorScheme::ForceDark,
            },
    {
        match self {
            Theme::System => ColorScheme::Default,
            Theme::Light => ColorScheme::ForceLight,
            Theme::Dark => ColorScheme::ForceDark,
        }
    }

    /// The string that stands for this theme in the config file.
    pub open spec fn key(self) -> Seq<char> {
        match self {
            Theme::System => "system"@,
            Theme::Light => "light"@,
            Theme::Dark => "dark"@,
        }
    }

    /// The theme that a string in the config file stands for.
    pub open spec fn of_key(key: Seq<char>) -> Theme {
        if key == "light"@ {
            Theme::Light
        } else if key == "dark"@ {
            Theme::Dark
        } else {
            Theme::System
        }
    }

    /// The stable string written to the config file.
    pub fn as_key(self) -> (r: &'static str)
        ensures
            r@ == self.key(),
    {
        match self {
            Theme::System => "system",
            Theme::Light => "light",
            Theme::Dark => "dark",
        }
    }

    /// The theme for a string from the config file.
    pub fn from_key(key: &str) -> (r: Self)
        ensures
            r == Theme::of_key(key@),
    {
        if text::same_text(key, "light") {
            Theme::Light
        } else if text::same_text(key, "dark") {
            Theme::Dark
        } else {
            Theme::System
        }
    }
}

/// A theme comes back from the string written for it.
pub proof fn law_theme_key_round_trip(theme: Theme)
    ensures
        Theme::of_key(theme.key()) == theme,
{
    reveal_strlit("system");
    reveal_strlit("light");
    reveal_strlit("dark");
    assert("system"@.len() == 6 && "light"@.len() == 5 && "dark"@.len() == 4);
}

/// Which finished runs raise a notification.
#[derive(Debug, Clone, Copy, PartialEq, Eq, Structural)]
pub enum NotifyOn {
    /// Only the runs that went wrong.
    Failures,
    /// Every run.
    All,
    Off,
}

impl Default for NotifyOn {
    fn default() -> (r: Self)
        ensures
            r == NotifyOn::Failures,
    {
        NotifyOn::Failures
    }
}

impl NotifyOn {
    /// The string that stands for this preference in the config file.
    pub open spec fn key(self) -> Seq<char> {
        match self {
            NotifyOn::Failures => "failures"@,
            NotifyOn::All => "all"@,
            NotifyOn::Off => "off"@,
        }
    }

    /// The preference that a string in the config file stands for.
    pub open spec fn of_key(key: Seq<char>) -> NotifyOn {
        if key == "all"@ {
            NotifyOn::All
        } else if key == "off"@ {
            NotifyOn::Off
        } else {
            NotifyOn::Failures
        }
    }

    /// Whether a run that finished as `conclusion` is worth a notification.
    pub open spec fn wants(self, conclusion: types::Conclusion) -> bool {
        match self {
            NotifyOn::Failures => conclusion.failed(),
            NotifyOn::All => true,
            NotifyOn::Off => false,
        }
    }

    /// The stable string written to the config file.
    pub fn as_key(self) -> (r: &'static str)
        ensures
            r@ == self.key(),
    {
        match self {
            NotifyOn::Failures => "failures",
            NotifyOn::All => "all",
            NotifyOn::Off => "off",
        }
    }

    /// The preference for a string from the config file.
    pub fn from_key(key: &str) -> (r: Self)
        ensures
            r == NotifyOn::of_key(key@),
    {
        if text::same_text(key, "all") {
            NotifyOn::All
        } else if text::same_text(key, "off") {
            NotifyOn::Off
        } else {
            NotifyOn::Failures
        }
    }

    /// Whether a run that finished as `conclusion` is worth a notification.
    pub fn matches(self, conclusion: types::Conclusion) -> (r: bool)
        ensures
            r == self.wants(conclusion),
    {
        match self {
            NotifyOn::Failures => conclusion.is_failure(),
            NotifyOn::All => true,
            NotifyOn::Off => false,
        }
    }
}

/// The seconds between two polls, unless set otherwise.
pub const DEFAULT_POLL_INTERVAL: u32 = 45;

/// The app's global settings. Loaded once at startup, saved on every change.
#[derive(Debug)]
pub struct Settings {
    pub theme: Theme,
    /// The hand-picked repos to monitor, as `owner/name`. Empty until the user
    /// adds some via the repo picker.
    pub watched: Vec<String>,
    pub notify: NotifyOn,
    /// Seconds between two polls.
    pub poll_interval: u32,
}

/// What the settings hold.
pub ghost struct SettingsView {
    pub theme: Theme,
    pub watched: Seq<Seq<char>>,
    pub notify: NotifyOn,
    pub poll_interval: u32,
}

impl View for Settings {
    type V = SettingsView;

    open spec fn view(&self) -> SettingsView {
        SettingsView {
            theme: self.theme,
            watched: text::texts(self.watched@),
            notify: self.notify,
            poll_interval: self.poll_interval,
        }
    }
}

/// The settings before anything was set.
pub open spec fn default_settings() -> SettingsView {
    SettingsView {
        theme: Theme::System,
        watched: Seq::empty(),
        notify: NotifyOn::Failures,
        poll_interval: DEFAULT_POLL_INTERVAL,
    }
}

impl Default for Settings {
    fn default() -> (r: Self)
        ensures
            r@ == default_settings(),
    {
        let settings = Settings {
            theme: Theme::System,
            watched: Vec::new(),
            notify: NotifyOn::Failures,
            poll_interval: DEFAULT_POLL_INTERVAL,
        };
        assert(text::texts(settings.watched@) =~= Seq::empty());
        settings
    }
}

impl Clone for Settings {
    fn clone(&self) -> (r: Self)
        ensures
            r@ == self@,
    {
        Settings {
            theme: self.theme,
            watched: list::copy(&self.watched),
            notify: self.notify,
            poll_interval: self.poll_interval,
        }
    }
}

/// The values of the config file's keys, where it has them:
/// `appearance/theme`, `watchlist/repos`, `notifications/on` and
/// `polling/interval`.
#[derive(Debug)]
pub struct SettingsFile {
    pub theme: Option<String>,
    pub repos: Option<String>,
    pub notify: Option<String>,
    pub interval: Option<String>,
}

/// What the config file's keys hold.
pub ghost struct SettingsFileView {
    pub theme: Option<Seq<char>>,
    pub repos: Option<Seq<char>>,
    pub notify: Option<Seq<char>>,
    pub interval: Option<Seq<char>>,
}

impl View for SettingsFile {
    type V = SettingsFileView;

    open spec fn view(&self) -> SettingsFileView {
        SettingsFileView {
            theme: types::optional_text(self.theme),
            repos: types::optional_text(self.repos),
            notify: types::optional_text(self.notify),
            interval: types::optional_text(self.interval),
        }
    }
}

/// The repositories in a comma-joined list. Empty names are none.
pub open spec fn watched_in(repos: Seq<char>) -> Seq<Seq<char>> {
    list::pieces(repos, ',').filter(|name: Seq<char>| name.len() > 0)
}

/// The poll interval that a string writes: a positive number of seconds. Any
/// other string leaves the default.
pub open spec fn interval_in(interval: Seq<char>) -> u32 {
    match text::number_in(interval) {
        Some(n) => if 0 < n <= u32::MAX {
            n as u32
        } else {
            DEFAULT_POLL_INTERVAL
        },
        None => DEFAULT_POLL_INTERVAL,
    }
}

/// The settings that a config file stands for: a missing or malformed key
/// leaves its default.
pub open spec fn settings_in(file: SettingsFileView) -> SettingsView {
    SettingsView {
        theme: match file.theme {
            Some(key) => Theme::of_key(key),
            None => Theme::System,
        },
        watched: match file.repos {
            Some(repos) => watched_in(repos),
            None => Seq::empty(),
        },
        notify: match file.notify {
            Some(key) => NotifyOn::of_key(key),
            None => NotifyOn::Failures,
        },
        poll_interval: match file.interval {
            Some(interval) => interval_in(interval),
            None => DEFAULT_POLL_INTERVAL,
        },
    }
}

/// The config file that keeps the settings.
pub open spec fn file_of(settings: SettingsView) -> SettingsFileView {
    SettingsFileView {
        theme: Some(settings.theme.key()),
        repos: Some(list::joined(settings.watched, ","@)),
        notify: Some(settings.notify.key()),
        interval: Some(text::decimal(settings.poll_interval as nat)),
    }
}

/// Read a comma-joined list of repositories.
fn read_watched(repos: &str) -> (r: Vec<String>)
    ensures
        text::texts(r@) == watched_in(repos@),
{
    let names: Vec<String> = list::split(repos, ',');
    let mut watched: Vec<String> = Vec::new();
    let ghost views = text::texts(names@);
    let ghost some = |name: Seq<char>| name.len() > 0;
    assert(text::texts(watched@) =~= views.take(0).filter(some)) by {
        reveal(Seq::filter);
    }
    for name in it: names
        invariant
            it.seq() == names@,
            views == text::texts(names@),
            some == (|name: Seq<char>| name.len() > 0),
            text::texts(watched@) == views.take(it.index() as int).filter(some),
    {
        let ghost i = it.index() as int;
        proof {
            assert(views.take(i + 1) =~= views.take(i).push(name@));
            views.take(i).lemma_filter_push(name@, some);
        }
        if name.as_str().unicode_len() > 0 {
            let ghost before = watched@;
            watched.push(name);
            assert(text::texts(watched@) =~= text::texts(before).push(name@));
        }
    }
    assert(views.take(views.len() as int) =~= views);
    watched
}

/// Read a poll interval.
fn read_interval(interval: &str) -> (r: u32)
    ensures
        r == interval_in(interval@),
{
    match text::parse_number(interval) {
        Some(n) => if 0 < n && n <= u32::MAX as u64 {
            n as u32
        } else {
            DEFAULT_POLL_INTERVAL
        },
        None => DEFAULT_POLL_INTERVAL,
    }
}

impl Settings {
    /// The settings in a config file, falling back to the defaults for a
    /// missing file or any missing/malformed key: a broken config never stops
    /// the app.
    pub fn load(file: Option<SettingsFile>) -> (r: Self)
        ensures
            r@ == match file {
                Some(file) => settings_in(file@),
                None => default_settings(),
            },
    {
        let mut settings: Settings = Settings::default();
        if let Some(file) = file {
            if let Some(theme) = &file.theme {
                settings.theme = Theme::from_key(theme.as_str());
            }
            if let Some(repos) = &file.repos {
                settings.watched = read_watched(repos.as_str());
            }
            if let Some(notify) = &file.notify {
                settings.notify = NotifyOn::from_key(notify.as_str());
            }
            if let Some(interval) = &file.interval {
                settings.poll_interval = read_interval(interval.as_str());
            }
        }
        settings
    }

    /// The config file that keeps these settings.
    pub fn save(&self) -> (r: SettingsFile)
        ensures
            r@ == file_of(self@),
    {
        SettingsFile {
            theme: Some(self.theme.as_key().to_owned()),
            repos: Some(list::join(&self.watched, ",")),
            notify: Some(self.notify.as_key().to_owned()),
            interval: Some(text::number(self.poll_interval as u64)),
        }
    }

    /// The colour scheme for the whole app.
    pub fn apply_theme(&self) -> (r: ColorScheme)
        ensures
            r == match self.theme {
                Theme::System => ColorScheme::Default,
                Theme::Light => ColorScheme::ForceLight,
                Theme::Dark => ColorScheme::ForceDark,
            },
    {
        self.theme.color_scheme()
    }
}

/// A watch list comes back from its comma-joined form: a full name has no
/// comma and is never empty.
pub proof fn law_watched_round_trip(watched: Seq<Seq<char>>)
    requires
        forall|i: int|
            0 <= i < watched.len() ==> (#[trigger] watched[i]).len() > 0 && !watched[i].contains(
                ',',
            ),
    ensures
        watched_in(list::joined(watched, ","@)) == watched,
{
    reveal_strlit(",");
    assert(","@ =~= seq![',']);
    let some = |name: Seq<char>| name.len() > 0;
    if watched.len() == 0 {
        let empty = Seq::<char>::empty();
        empty.index_of_first_ensures(',');
        assert(list::pieces(empty, ',') =~= seq![empty]);
        assert(seq![empty].filter(some) =~= Seq::<Seq<char>>::empty()) by {
            let none = Seq::<Seq<char>>::empty();
            reveal(Seq::filter);
            assert(none.filter(some) =~= none);
            none.lemma_filter_push(empty, some);
            assert(seq![empty] =~= none.push(empty));
        }
    } else {
        list::law_split_undoes_join(watched, ',');
        text::lemma_filter_keeps_all(watched, some);
    }
}

/// What is saved is what is loaded: the config file for settings whose watched
/// names have no comma and are not empty, and whose interval is positive,
/// stands for those settings.
pub proof fn law_settings_round_trip(settings: SettingsView)
    requires
        forall|i: int|
            0 <= i < settings.watched.len() ==> (#[trigger] settings.watched[i]).len() > 0
                && !settings.watched[i].contains(','),
        settings.poll_interval > 0,
    ensures
        settings_in(file_of(settings)) == settings,
{
    law_theme_key_round_trip(settings.theme);
    law_watched_round_trip(settings.watched);
    reveal_strlit("failures");
    reveal_strlit("all");
    reveal_strlit("off");
    assert("failures"@.len() == 8 && "all"@.len() == 3 && "off"@.len() == 3);
    assert("all"@[0] == 'a' && "off"@[0] == 'o');
    text::law_number_round_trip(settings.poll_interval as u64);
}

/// Each theme and each preference has its own name in the config file, and any
/// other name stands for the default.
pub proof fn law_key_names(key: Seq<char>)
    ensures
        Theme::of_key(key) is Light <==> key == "light"@,
        Theme::of_key(key) is Dark <==> key == "dark"@,
        NotifyOn::of_key(key) is All <==> key == "all"@,
        NotifyOn::of_key(key) is Off <==> key == "off"@,
        Theme::System.key() == "system"@ && Theme::Light.key() == "light"@ && Theme::Dark.key()
            == "dark"@,
        NotifyOn::Failures.key() == "failures"@ && NotifyOn::All.key() == "all"@
            && NotifyOn::Off.key() == "off"@,
{
    reveal_strlit("light");
    reveal_strlit("dark");
    reveal_strlit("all");
    reveal_strlit("off");
    assert("light"@.len() == 5 && "dark"@.len() == 4);
    assert("all"@[0] == 'a' && "off"@[0] == 'o');
}

/// Under failures only, a failure, a time-out and a failed start are worth a
/// notification, and nothing else is: no cancelled run, no skipped one, none
/// that passed. Under every run each outcome is, and switched off none.
pub proof fn law_what_is_worth_a_notification(conclusion: types::Conclusion)
    ensures
        conclusion == types::Conclusion::Failure || conclusion == types::Conclusion::TimedOut
            || conclusion == types::Conclusion::StartupFailure ==> NotifyOn::Failures.wants(
            conclusion,
        ),
        NotifyOn::Failures.wants(conclusion) ==> conclusion != types::Conclusion::Success
            && conclusion != types::Conclusion::Cancelled && conclusion
            != types::Conclusion::Skipped && conclusion != types::Conclusion::ActionRequired
            && conclusion != types::Conclusion::Neutral && conclusion
            != types::Conclusion::Stale && conclusion != types::Conclusion::Unknown,
        NotifyOn::All.wants(conclusion),
        !NotifyOn::Off.wants(conclusion),
{
}

/// A list of repositories is read name by name, in its order, and an empty name
/// is none.
pub proof fn law_watched_name_by_name(name: Seq<char>, rest: Seq<char>)
    requires
        !name.contains(','),
    ensures
        name.len() > 0 ==> watched_in(name.push(',') + rest) == seq![name] + watched_in(rest),
        name.len() == 0 ==> watched_in(name.push(',') + rest) == watched_in(rest),
        name.len() > 0 ==> watched_in(name) == seq![name],
        name.len() == 0 ==> watched_in(name) == Seq::<Seq<char>>::empty(),
{
    let some = |name: Seq<char>| name.len() > 0;
    let none = Seq::<Seq<char>>::empty();
    list::law_first_piece_first(name, rest, ',');
    Seq::filter_distributes_over_add(seq![name], list::pieces(rest, ','), some);
    reveal(Seq::filter);
    assert(none.filter(some) =~= none);
    none.lemma_filter_push(name, some);
    assert(seq![name] =~= none.push(name));
    assert(none + watched_in(rest) =~= watched_in(rest));
}

/// A poll interval is the number of seconds that is written, and 45 where that
/// is zero or does not fit; the same where there is no number.
pub proof fn law_interval_is_the_number_written(n: u64, text: Seq<char>)
    ensures
        0 < n <= 0xffff_ffff ==> interval_in(text::decimal(n as nat)) == n,
        n == 0 || n > 0xffff_ffff ==> interval_in(text::decimal(n as nat)) == 45,
        text::number_in(text) is None ==> interval_in(text) == 45,
{
    text::law_number_round_trip(n);
}

/// A config file is read key by key: what one key holds decides its own
/// setting alone, and a missing key leaves the default.
pub proof fn law_settings_key_by_key(file: SettingsFileView)
    ensures
        ({
            let s = settings_in(file);
            &&& s.theme is Light == (file.theme == Some("light"@))
            &&& s.theme is Dark == (file.theme == Some("dark"@))
            &&& s.notify is All == (file.notify == Some("all"@))
            &&& s.notify is Off == (file.notify == Some("off"@))
            &&& file.repos is None ==> s.watched.len() == 0
            &&& file.repos matches Some(repos) ==> s.watched == watched_in(repos)
            &&& file.interval is None ==> s.poll_interval == 45
            &&& file.interval matches Some(interval) ==> s.poll_interval == interval_in(interval)
        }),
{
    if let Some(theme) = file.theme {
        law_key_names(theme);
    }
    if let Some(notify) = file.notify {
        law_key_names(notify);
    }
}

/// The settings that nothing was set of follow the desktop, watch nothing,
/// notify of failures and poll every 45 seconds; they are what a file without
/// keys stands for.
pub proof fn law_defaults()
    ensures
        default_settings().theme is System,
        default_settings().watched.len() == 0,
        default_settings().notify is Failures,
        default_settings().poll_interval == 45,
        settings_in(SettingsFileView { theme: None, repos: None, notify: None, interval: None })
            == default_settings(),
{
}

} // verus!
