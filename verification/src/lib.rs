//! Pitwall watches the GitHub Actions runs of a hand-picked set of
//! repositories and says the moment one fails.

pub mod app;
pub mod components;
pub mod github;
pub mod list;
pub mod notify;
pub mod runs;
pub mod secret;
pub mod settings;
pub mod text;
pub mod time;
