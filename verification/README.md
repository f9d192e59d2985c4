# codex_launcher

A launcher that runs a Codex command until it succeeds: several workers may
race the same command, a shared budget bounds the attempts, a keep-alive mode
runs the command again after a success, and the outcome is reported through
Server Chan pushes, desktop toasts and e-mail. Runs can be scheduled with the
Windows Task Scheduler.

## Layout

- `src/` — the library, verified with Verus. Each module states its
  contracts over mathematical models (`Seq`, `Map`, spec functions):
  - `schedule` compiles schedules (daily, weekly, monthly, interval, logon,
    startup and a cron subset) into `schtasks` arguments;
  - `output`, `capture` frame child output into logical lines, detect the
    high-demand marker across read chunks and keep a bounded output tail;
  - `retry` holds every decision of a run: the shared attempt budget, what a
    finished attempt means, how racing workers' outcomes combine, and the
    keep-alive cycle;
  - `config`, `launch`, `run_manager`, `snapshot`, `status_store`,
    `app_storage` cover configuration, start-up modes, stop requests, log
    snapshots, the status page and bounded diagnostic logs;
  - `server_chan`, `notifications`, `email`, `credentials` cover the
    notification channels;
  - `task_scheduler` decides task ownership, `schtasks` arguments and task
    health;
  - `text`, `windows_text` are the text helpers the rest builds on.
- `app/` — the executable around the library: file and process I/O, the
  async run loop, HTTP, SMTP and desktop notifications, and the command line.
- `tests/` — tests of the library on concrete values.
