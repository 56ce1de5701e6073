# acb

The decision logic of an access-controlled browser for LLM coding agents — a
daemon that opens only allow-listed URLs, exposes page elements to the agent
through server-allocated `@eN` refs, and streams a live viewport — and of its
operator CLI, which protects, edits and signs the policy file.

Everything under `src/` is verified with Verus: each public function states
in its contract what it returns, and the properties that span several calls
are stated and proved as `law_*` proof functions. Where a result comes from
the clock or a random draw, the reading is handed to a verified function
(`secs_or_zero`, `session_id_for`) that states what is made of every value;
which value the clock or the generator gives is not stated.

## Layout

- `src/snapshot/` — the `@eN` ref table (monotonic refs, generations that
  invalidate older refs) and snapshot assembly.
- `src/api/` — the daemon's endpoints: element actions (stale refs are
  refused), navigation and history bounds, session ids, the redacted policy
  summary, the admin reload, the viewport socket loops.
- `src/browser/` — input forwarding, the screencast/poll frame pipeline, the
  request interceptor's and popup decisions, the helper fingerprint, the
  browser's hardening flags.
- `src/protect.rs`, `src/edit.rs`, `src/editor.rs`, `src/sign.rs`,
  `src/se.rs` — the operator side: privileged command sequences for each
  platform, PowerShell quoting, the visudo-style edit, `$EDITOR` splitting,
  the `revision:` counter and the `ssh-keygen` signing command.
- `src/state.rs`, `src/commands.rs`, `src/client.rs` — the CLI's session
  resolution order, the requests it sends, the token file.
- `src/reload.rs`, `src/policy_file.rs`, `src/ui_static.rs`,
  `src/events.rs` — hot-reload event matching, the signature path and the
  rollback guard, UI asset lookup, the activity feed and its timestamps.
- `src/text.rs` — character-level helpers shared by the above.
- `app/` — host glue (files, environment, child processes, JSON forms).
- `tests/` — executable tests of the library.
