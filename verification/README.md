# DrawbridgeVPN

A macOS client that signs in to a FortiGate SSL VPN through its SAML page
(Microsoft sign-in with a one-time code), captures the `SVPNCOOKIE`, and
starts `openfortivpn` with it.

## Layout

- `src/` — the verified library (Verus):
  - `login` — the sign-in flow as stages: order, announcements, how each
    failure ends the attempt, bounded waits, MFA choice, submit rounds and
    the diagnostic messages;
  - `session` — the window's state and what each worker report or click
    changes;
  - `dashboard` — what the window shows: clock, connect button, profile rows,
    avatar colours, selection;
  - `profile` — profiles, the profile store and the edit form;
  - `script` — JavaScript snippets with user text embedded as JSON literals;
  - `totp` — secret clean-up and one-time codes (`totp-rs`);
  - `browser` — Chrome lookup, its profile directories, blocked downloads;
  - `webview` — the built-in browser's content rules and script results;
  - `vpn` — openfortivpn's privileged commands, `ifconfig`/`netstat` parsing,
    the connect and disconnect decisions;
  - `logfile`, `paths`, `events`, `text` — the log format, file places,
    worker reports, and character-level helpers.
- `app/` — the program around it: the egui window, the Chrome and WebKit
  drivers, keychain, files and processes.
- `tests/` — tests of the library.
