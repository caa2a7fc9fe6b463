# Pitwall

A native GNOME monitor for GitHub Actions. It polls the workflow runs of the
repositories you pick, shows them newest first, and raises a desktop
notification the moment one fails.

The rules of the app are a library verified with Verus; the window, the
network and the keyring are ordinary Rust around it.

- `src/app/` is the model: messages go in, the model moves on, effects come out
  for the window to perform. `step.rs` says what each message does, `reducer.rs`
  does it, `laws.rs` states what holds across messages.
- `src/components/` holds the state behind the rows and pages.
- `src/github/` is the API's vocabulary: runs, jobs and annotations, conditional
  polling and its cache, connecting, signing in, and reading logs.
- `src/runs.rs`, `src/notify.rs`, `src/settings.rs` and `src/secret.rs` hold the
  run list, the notification rules, the settings file and the keyring item.
- `src/text.rs`, `src/list.rs` and `src/time.rs` are the vocabulary the contracts
  are written in.
- `app/` is the GTK program. It makes the requests, draws the widgets and
  performs the effects.

What is taken on trust is marked `external_body`, `assume_specification` or
`uninterp`: chrono's arithmetic and formatting, http's header map, the zip
archive, and a few functions of the standard library.
