# bot-harness

Runs one task with any agent that speaks the
[Agent Client Protocol](https://agentclientprotocol.com): it records the
protocol stream, answers the agent's permission requests from a policy, and
keeps the session to a timeout and a budget. `devspace` manages the disposable
development runners that agents work on, and `fake-acp-agent` is a scripted
agent for trying the rest out.

`src/` is the library, verified with [Verus](https://github.com/verus-lang/verus):
what is logged, counted, decided, answered and summed up, as functions of plain
values. `app/` is the three programs around it: arguments, files, processes, the
network and the clock.

| module       | what it holds                                                |
| ------------ | ------------------------------------------------------------ |
| `text`       | characters, lines, numbers and the cutting of free text      |
| `json`       | JSON values, read and written by `serde_json`                |
| `table`      | tables keyed by text                                         |
| `path`       | paths, resolved lexically                                    |
| `message`    | the line of an agent message that the log shows              |
| `toolcall`   | a tool call: what its updates say, how it is summed up       |
| `digest`     | a session, followed message by message                       |
| `invariants` | what holds of every session, whatever the two sides send     |
| `policy`     | permission policies                                          |
| `agents`     | the registry of agents                                       |
| `run`        | one session: its transcript, its answers, its end            |
| `summary`    | `summary.json` of a recorded run                             |
| `duration`   | lengths of time on the command line                          |
| `moment`     | points in time                                               |
| `devspace`   | runners: arguments, local state, runs and their states       |
| `lifecycle`  | `start`, `ssh` and `stop`, step by step                      |
| `fake_agent` | the scripted agent                                           |

Contracts speak of views: a string is its characters, a list the views of its
items. Public proof functions named `law_...` state what holds across functions.
