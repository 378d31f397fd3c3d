# catpane

A verified library for watching Android and iOS device logs: it parses
`adb logcat`, iOS syslog and unified-log records, filters and searches log
entries, detects crashes, keeps pattern watches, lays out split log panes,
and decides what the capture tools and their command-line front end do.
Every function in `src/` carries a `requires`/`ensures` contract that Verus
proves.

Layout:

- `src/` — the library, written in Verus. Its modules cover log entries
  (`log_entry`), filters (`filter`, `tag_completion`), crash detection
  (`crash_detector`), watches (`watch`), panes and their layout (`pane`,
  `pane_controls`, `workspace`, `sidebar`), devices and captures (`adb`,
  `ios`, `capture`, `command`), network shaping (`network_condition`,
  `throttle`), QR pairing and its QR image (`qr_pairing`, `adb`) and the tool server's data
  (`tools`, `tool_catalog`, `protocol`).
- `tests/` — tests of the library on concrete inputs.
- `app/` — the command-line front end: it runs adb, xcrun and
  idevicesyslog, decodes their JSON output, and prints what the library
  decides.

Calls into `regex`, `serde_json` and `qrcode`, and a few into `std`, stand behind
small trusted wrappers whose doc comments say what their contracts claim.
