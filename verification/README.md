# kill_switch_drill

A verified library for staged capability-stop drills: an allowlist of
commands, profiles of steps that reference them, and an incident card that
records each control check without command lines or output.

- `src/table.rs` — a key-ordered table (the configuration's maps), with byte-wise key order.
- `src/config.rs` — the configuration and `validate`, with the exact message of the first failing check.
- `src/command.rs` — what one command run amounts to (`command_result`), the wait loop's decisions (`wait_step`) and the output cap.
- `src/drill.rs` — the drill as a state machine (`run_drill`, `DrillRun::pending`, `advance`, `finish`) and its laws.
- `src/report.rs` — the live-run lock, the exit status and the text forms of results.
- `src/text.rs` — text helpers (white space, decimal, substring search).
- `app/` — the command line: reading TOML, running processes, timing steps, JSON output.
