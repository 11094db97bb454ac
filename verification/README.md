# udo

A bash agent: a task described in plain words is handed to an Ollama model,
which answers with shell commands; the agent runs them and hands the output
back until the model is done. Progress is recorded as one JSON event per line,
from which a terminal watcher and a status-bar summary are derived.

`src/` is the library, verified with Verus:

- `agent` — the agent loop as a state machine (what to ask the model, which
  command to run, which events to record, when to stop);
- `bash` — what a command's outcome becomes: output cut to 8 KiB at a
  character boundary, exit code, the JSON handed back to the model;
- `progress` — events, task snapshots replayed from events, the task listing,
  and the status-bar summary;
- `watch` — the watcher's selection, scrolling and the texts of its panes;
- `paths`, `frontend`, `worker`, `prompt`, `ollama`, `text` — file locations,
  task ids, how a worker reports the end of its task, the task description,
  chat messages, and the string helpers the rest is built on.

`app/` is the program around it: the command line, the HTTP client, process
spawning, files, the terminal UI and desktop notifications.
