# harness_sessions

Reads the session files that coding harnesses leave on disk and normalizes their lines: who speaks,
what is said, which model call a line belongs to, and what that call cost.

- `src/` is the library, verified with Verus.
  - `text`, `json`, `render`, `clock`: text as characters, JSON values, their compact text, time
    stamps.
  - `model`: what every transcript is normalized to.
  - `sessions`: where session files are looked for and what they are named.
  - `ccode`: `ccode` transcripts. `typed` reduces user-role text to what the user typed, `stripping`
    is what that leaves of command output, `message` is one line, `session` the files, `laws` what
    holds of lines as a whole.
  - `codex`: Codex rollouts. `message` is one line, `contextual` the fragments the harness injects,
    `output` the exit code of a command, `usage` token counts, `stamp` what only the reader of a
    rollout knows, `scan` the search of a file's first bytes, `session` the files, `laws` what holds
    of lines as a whole.
- `app/` is the code around it: parsing lines, walking and watching directories, and streams of
  sessions and messages. The program that embeds it supplies its services through the trait
  `Services`.
- `tests/` runs the library against `serde_json`, `time` and `memchr`.

Paths, thread pools and change signals are type parameters of the library, carried along and never
looked into. The trusted items are in `text`, `json`, `render`, `clock` and `codex::scan`; each says
what it claims of the function it stands for.
