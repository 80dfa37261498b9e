# saw

`saw` watches the sessions of a coding agent. It follows the session logs, the
hook events, the process and the files of a project, decides in which phase a
session is (working, thinking, hanging, looping, blocked, out of scope, idle or
dead), and answers what goes wrong with warnings, checkpoints or signals.

The library under `src/` holds the rules and is verified with Verus:

- `types`, `state`, `metrics`, `loop_detector`, `classifier`, `state_machine`:
  the model of a session and the phase it is in.
- `json`, `decode`, `session`, `hook`, `tasks`, `config`: reading logs, hook
  payloads, task files and settings.
- `jsonl_tail`, `watcher`, `process_monitor`, `runtime`, `event_bus`, `store`:
  the decisions behind the tailing of logs, the watching of files and processes,
  and the records of past sessions.
- `alerter`, `watch`, `status`, `snapshot`, `common`: alerts, status reports and
  the choice of a session.
- `tui`, `ui`, `status_bar`, `metrics_panel`, `file_activity`, `alerts_panel`:
  what the terminal view shows and how it answers keys.
- `agent`, `clock`, `text`, `paths`, `commands`: times, texts, paths and command lines.
- `laws`, `stream_laws`, `alert_laws`, `list_laws`, `path_laws`: what holds of
  several functions together.

The program under `app/` does what the library leaves to it: arguments, files,
processes, signals, the terminal and the database. It finds the directory in
which the agent keeps its records below the user's home, by the sessions and
projects in it; `--agent-dir` or `SAW_AGENT_DIR` names another one.
