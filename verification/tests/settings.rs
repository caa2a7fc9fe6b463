use pitwall::github::types::Conclusion;
use pitwall::settings::{ColorScheme, NotifyOn, Settings, SettingsFile, Theme};

fn file(theme: &str, repos: &str, notify: &str, interval: &str) -> SettingsFile {
    SettingsFile {
        theme: Some(theme.to_owned()),
        repos: Some(repos.to_owned()),
        notify: Some(notify.to_owned()),
        interval: Some(interval.to_owned()),
    }
}

#[test]
fn no_file_means_defaults() {
    let settings = Settings::load(None);
    assert_eq!(settings.theme, Theme::System);
    assert!(settings.watched.is_empty());
    assert_eq!(settings.notify, NotifyOn::Failures);
    assert_eq!(settings.poll_interval, 45);
    let bare = SettingsFile { theme: None, repos: None, notify: None, interval: None };
    assert_eq!(Settings::load(Some(bare)).poll_interval, 45);
}

#[test]
fn malformed_keys_fall_back() {
    let settings = Settings::load(Some(file("purple", "", "loudly", "0")));
    assert_eq!(settings.theme, Theme::System);
    assert!(settings.watched.is_empty());
    assert_eq!(settings.notify, NotifyOn::Failures);
    assert_eq!(settings.poll_interval, 45);
    assert_eq!(Settings::load(Some(file("", "", "", "4294967296"))).poll_interval, 45);
    assert_eq!(Settings::load(Some(file("", "", "", "soon"))).poll_interval, 45);
}

#[test]
fn the_watch_list_is_comma_joined() {
    let settings = Settings::load(Some(file("dark", "a/b,,c/d,", "all", "30")));
    assert_eq!(settings.watched, vec!["a/b", "c/d"]);
    assert_eq!(settings.theme, Theme::Dark);
    assert_eq!(settings.notify, NotifyOn::All);
    assert_eq!(settings.poll_interval, 30);
    assert_eq!(settings.save().repos.as_deref(), Some("a/b,c/d"));
}

#[test]
fn what_is_saved_is_loaded() {
    for theme in [Theme::System, Theme::Light, Theme::Dark] {
        for notify in [NotifyOn::Failures, NotifyOn::All, NotifyOn::Off] {
            for watched in [vec![], vec!["a/b".to_owned()], vec!["a/b".to_owned(), "c/d".to_owned()]] {
                let settings = Settings { theme, watched: watched.clone(), notify, poll_interval: 90 };
                let back = Settings::load(Some(settings.clone().save()));
                assert_eq!(back.theme, theme);
                assert_eq!(back.watched, watched);
                assert_eq!(back.notify, notify);
                assert_eq!(back.poll_interval, 90);
            }
        }
    }
}

#[test]
fn themes_map_to_schemes() {
    assert_eq!(Theme::default(), Theme::System);
    assert_eq!(Theme::System.color_scheme(), ColorScheme::Default);
    assert_eq!(Theme::Light.color_scheme(), ColorScheme::ForceLight);
    assert_eq!(Theme::Dark.color_scheme(), ColorScheme::ForceDark);
    assert_eq!(Settings::default().apply_theme(), ColorScheme::Default);
    assert_eq!(Theme::Light.as_key(), "light");
    assert_eq!(Theme::from_key("system"), Theme::System);
}

#[test]
fn preferences_pick_the_outcomes() {
    assert!(NotifyOn::Failures.matches(Conclusion::TimedOut));
    assert!(!NotifyOn::Failures.matches(Conclusion::Success));
    assert!(NotifyOn::All.matches(Conclusion::Success));
    assert!(!NotifyOn::Off.matches(Conclusion::Failure));
}
