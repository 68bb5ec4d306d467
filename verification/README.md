# Egregore

The verified core of an evidence graph. Source files, logs and task files become records of one
graph: nodes and edges with stable identities. Other parts link these records, resolve stack frames
to symbols, audit citations, and answer questions about what the graph holds.

`src/` is written in Verus, and every function in it is proved against its contract, except the few
trusted ones through which it calls the standard library and other crates (below). Contracts speak of
views: a record, a syntax tree or a JSON value as a mathematical value.

| Where | What |
| --- | --- |
| `ir`, `json`, `time`, `text`, `path`, `order` | records, values, instants, text, paths, and sorting |
| `languages` | Rust and TypeScript: lexing, normalization, extraction from syntax trees |
| `scan` | a repository as a graph, and how much of it was covered |
| `policy` | what a scan is handed: redaction, and the passes that resolve names in and across files |
| `log_graph`, `log_link`, `log_resolve` | error signatures, the runs they came from, and their frames |
| `local_project` | tasks, criteria and links from task files |
| `memory_evidence_health` | citations that still hold, drifted, or dangle |
| `mcp`, `mcp_contract` | answers of the read-only tools, and their published schemas |
| `laws` | what holds of the parts as a whole |

Functions of other crates (BLAKE3, chrono, serde_json, tree-sitter) and some of the standard library
stand behind small trusted declarations. Their contracts are not proved: the comment above each says
what is taken for granted.

`app/` is ordinary Rust around the library: files, clocks, the wire and the tool server.
`tests/` runs the library on concrete values.
