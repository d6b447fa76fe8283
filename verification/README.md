# msb_cloud_adapter

A gateway that serves the msb-cloud HTTP contract on top of a local microsandbox runtime: clients
that speak to the cloud backend can be pointed at one machine.

- `src/` is the gateway's logic, verified with Verus: what the shapes of the contract are, how
  requests become configurations and back, which requests are admitted, how failures are answered,
  how lists are paged, and what the log streams and the exec sessions do at every step.
- `tests/` runs the logic on concrete values.
- `app/` is the program: the routes, the sockets, the JSON and the calls into the runtime.

The configuration of the program is its bind address (`--bind`, `MSB_CLOUD_ADAPTER_BIND`, by
default `127.0.0.1:8088`) and the key that clients present (`--api-key`,
`MSB_CLOUD_ADAPTER_API_KEY`).

## The modules of `src/`

| module | what it holds |
| --- | --- |
| `cloud` | the shapes of requests and responses, and the names of their enumerations |
| `backend` | what the gateway sees of the runtime |
| `convert` | the conversions between the two |
| `auth` | the bearer key |
| `error` | refusals: status, code and message |
| `listing` | pages and cursors, and the order of volumes |
| `lifecycle` | creating, starting, stopping and removing sandboxes |
| `files` | the answers of the file endpoints |
| `logs` | log sources and log streams |
| `exec` | exec sessions over a web socket |
| `runtime` | where the runtime's files are looked for, and the health check |
| `text`, `string_map`, `seqs`, `time` | what the others are built on |

Functions named `law_...` state what holds of the gateway as a whole.

## What is not proved

The contracts of the functions marked `external_body` are believed. Each of them is one call into
`axum`'s `http` types, `chrono`, `serde_json` or the standard library, and its comment says what is
claimed of that call.
