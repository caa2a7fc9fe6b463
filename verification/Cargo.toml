[package]
name = "pitwall"
version = "0.1.0"
edition = "2021"
publish = false

[dependencies]
anyhow = "1"
chrono = "=0.4.45"
futures-util = "0.3"
http = "=1.5.0"
octocrab = { version = "=0.54.1", default-features = false, features = ["default-client", "follow-redirect", "retry", "rustls", "rustls-ring", "timeout", "tracing", "jwt-rust-crypto"] }
oo7 = "0.6"
relm4 = { version = "=0.11.0", features = ["libadwaita", "gnome_47"] }
secrecy = "0.10"
tracing = "0.1"
tracing-subscriber = { version = "0.3", features = ["env-filter"] }
zip = { version = "=8.6.0", default-features = false, features = ["deflate"] }
