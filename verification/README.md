# herdr remote agents

Agents of remote sessions in the panel of a local one, and views over that panel.

- `src/` is the verified library. It decides which remote hosts are watched, checks what they
  report, keeps what is known of their agents, filters and sorts the panel, and describes the
  session to others. Its public functions state what they return or change.
- `app/` runs it: watcher threads, ssh processes, and JSON on the wire.
- `tests/` runs the library on concrete values.

The main parts of `src/`:

| Module | Subject |
| --- | --- |
| `remote_agents::fleet` | which reported sessions are accepted, and how their agents are presented |
| `remote_agents::registry` | the watched hosts, their agents, and the rows of the panel |
| `remote_agents::supervisor`, `watcher`, `stream` | the decisions of the watcher threads |
| `remote_agents::command`, `input` | the ssh command and script, and what is read back |
| `agent_view` | checking a view, filtering by it and sorting by it |
| `ui`, `session` | the panel and the session snapshot |

Modules whose names end in `_laws` hold what is true over several calls.
