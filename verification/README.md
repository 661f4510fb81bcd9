# cross_platform_agent

A local agent that exposes a small, controlled set of Git operations and an
allowlisted `command.run` over REST and WebSocket. Every local path must lie
within the configured allowed roots, programs run without a shell, and each
request becomes a task whose status, logs and result can be queried.

The decisions of the agent live in a library verified with Verus (`src/`):

- `text`, `json`: character-level text handling and JSON text building.
- `error`: the error values and the HTTP status each carries.
- `path_policy`: lexical path normalization and the allowed-roots rule,
  for Unix and Windows paths.
- `config`: reading the configuration from environment values.
- `actions`: the action catalog, the `git` command lines and output
  parsing (`git`), `command.run` (`command`), and the step-by-step flow of
  every action from its parameters to its result (`flow`).
- `runtime`: the task store (retention, lifecycle, logs) and run checks.
- `process_runner`: what a finished or failed program run becomes.
- `dialog`: the native error dialog and its per-platform commands.
- `server`: authorization, task ids and WebSocket message handling.

Public proof functions named `law_*` state properties that hold across
operations, such as that every program an action runs works within an
allowed root, that each action reaches its result, and that the task store
never retains more tasks than its limit.

`app/` holds the program around the library: the HTTP and WebSocket
server, environment reading, process spawning, dialogs and JSON
(de)serialization. It performs the work that the library's action flow asks
for and hands the outcomes back.
