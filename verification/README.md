# dotagent

A daemon and command line that run agents on a schedule or because somebody
asked, answer over a chat and a local socket, and offer what they can do as MCP
tools.

`src/` is the logic, written in Verus: every function states what it returns or
changes, and Verus proves it. Decisions are functions from plain values to plain
values; the loops that wait, read and send are in `app/`.

| Module | What it decides |
| --- | --- |
| `daemon` | what is due, what an attempt leads to, whom to alert, when to sleep, what an inbound message may do |
| `gateway` | who is admitted, one worker per conversation, how a reply is shaped and delivered |
| `local_api` | framing, requests, responses, events and connection budgets of the local socket |
| `mcp` | the tool catalog, JSON-RPC, and what each tool call does |
| `discovery`, `manifest` | which agents exist, and what they declare |
| `memory`, `harness` | which facts are kept, and what a conversation hands on |
| `os_exec`, `process` | which operating system commands run, and what is said of them |
| `audit`, `doctor`, `status`, `daily_summary`, `output`, `utility`, `completions` | what the commands print |
| `json`, `table`, `text` | JSON values, a keyed table, text |

What is believed without proof is marked `external_body` or
`assume_specification`: calls into `serde_json` (`json`), `chrono` (`status`,
`daemon::schedule`) and the standard library (`text`, `local_api`). Each says
above it which call it stands for and what it claims of it.

Properties that relate several functions are public proof functions, next to the
functions they speak of.

`app/` is the program: `main` and its arguments, the tasks and sockets, and in
`platform.rs` the services of the workspace's other crates.
