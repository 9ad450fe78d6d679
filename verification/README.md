# LeopardWM

The decisions of a scrolling window manager for Windows, with proofs.

- `src/` is the library. Its functions take what the system reported as plain
  values and say what is to be done; their contracts are proved by Verus.
  - `wheel`, `gestures`: wheel navigation and swipes, and the hook around them
  - `event_hooks`, `window_identity`, `mouse_hook`, `hook_thread`: native events,
    window incarnations, the pointer, and the threads that pump messages
  - `inspect`: which windows are admitted, and why not
  - `state`, `config`, `geometry`, `text`: the data
  - `transitions`, `ghosts`: layout transitions and the thumbnails that stand in for
    windows while they move
  - `ui_sync`, `focus`, `dialog`: border, tab strips, foreground, rename popup
  - `window_rules`: rules, and taking windows in
  - `update_check`, `autostart`, `ipc_security`, `policies`: the daemon around it
- `tests/` runs the library on concrete values.
- `app/` is the program: hooks, threads, requests and windows. `app/daemon.rs` keeps
  the state and carries out what the library decides; `app/win/` is what talks to the
  desktop. The program leaves windows where they are: it computes no layout.

`semver` compares versions and `serde_json` reads the list of releases; what the
proofs rest on there is stated beside `parse_version`, `exceeds` and `parse_json` in
`src/update_check.rs`, and for lower case beside `to_lowercase` in `src/gestures.rs`.
