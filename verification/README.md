# nono-approval

A local daemon that holds approval requests of the `nono` sandbox until a person decides them, with
a command line and a full-screen client. The decisions, limits, leases, rules and texts are a
library verified with Verus; sockets, files and the terminal are ordinary Rust around it.

## The library (`src/`)

| Module | What it holds |
| --- | --- |
| `protocol` | webhook requests and decisions, and the checks on a received body |
| `display` | sanitized texts, summaries and details shown to people |
| `policy` | session rules: patterns, coverage, which rule decides, policy files |
| `broker` | pending approvals, leases, replay protection, tombstones, session rules |
| `webhook` | what each webhook request is answered |
| `control` | routes and answers of the control interface, and its client's requests |
| `interactive`, `keys` | the state of the full-screen client and what each key does |
| `rule_selector`, `screen` | the rule selector, and the texts and layout of each screen |
| `config`, `cli`, `daemon` | configuration, command-line options and outputs, start and end of a run |
| `runtime_path`, `peer_identity` | paths, owner-only directories, stale sockets, the control peer |
| `debug_capture` | names, records and failures of debug captures |
| `profile_validation` | the report of the sandbox probe and the verdict on it |
| `clock`, `text` | times and texts |

Contracts are stated over mathematical models: every data type has a view, and a spec function says
what each operation does to it. Public proof functions state what holds across operations, for
instance that a request is decided at most once, that a running lease is kept, that Enter never
approves, or that a remembered rule covers the request it came from. Calls into other crates stand
in small wrappers whose doc comments say what is taken on trust.

Times are integers, in nanoseconds; an operation takes the current time as an argument.

## The program (`app/`)

`app/` performs what the library decides: it reads and writes files, serves HTTP, draws the
terminal and converts between the library's types and JSON or TOML.

## Tests (`tests/`)

One file for each part of the library, on concrete values.
