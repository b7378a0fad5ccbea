# norn

Norn monitors what actually runs on a Linux server — Docker containers,
systemd services, listening ports and installed packages — correlates that
inventory with vulnerability scanner output, scores the runtime risk of each
finding, keeps scan history and sends Discord notifications for important new
risks.

The library in `src/` holds the logic, written in Verus and verified against
its contracts:

- `text`: line, word and field splitting over `Seq<char>`.
- `docker`, `systemd`, `packages`, `ports`: inventory from the Docker API's
  inspect documents, `systemctl`, `dpkg` and `ss` output.
- `grype`: findings from Grype's report.
- `inventory`: scan targets, grouped so that each image is scanned once.
- `risk`: runtime risk from severity, exposure and container configuration.
- `scan`: which findings become risks (ignore rules), how scanner jobs are
  gathered, how a scan ends.
- `notify`: the Discord message, and the notification plan of a scan:
  deduplicated, highest risk first, within the per-scan cap.
- `history`, `report`: scan history rules and the text reports.
- `dashboard`: what the terminal dashboard does on each key press, idle
  moment or finished scan, and the status line it shows.
- `config`, `actions`, `error`, `models`, `runtime`: settings, operator
  actions, errors, the data model, and the clock and identifiers.

The laws of the library (the cap on notifications, deduplication, the risk
rules, ignore rules, summary counts, retention) are public proof functions
next to the code they speak of.

`app/` is the `norn` program around the library: the command line, the
SQLite store, the HTTP API, the terminal dashboard, and the I/O of the
collectors, the scanner and the notifier. `tests/` exercises the library.
