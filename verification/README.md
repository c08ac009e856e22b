# codex-mcp-spawner

An MCP server that launches isolated Codex subagents with a model provider of their own, and the
provider proxy they talk to: it takes Responses requests, puts them to a chat completion upstream,
and turns the answer, streamed or whole, back into Responses events.

The logic is a library verified with Verus. Everything that touches the network, the file system,
processes or the database is in `app/`.

## Layout

- `src/text.rs`: strings as sequences of characters
- `src/json.rs`, `src/codec.rs`: JSON documents, and reading and writing them with `serde_json`
- `src/config.rs`: providers, models, the arguments of the proxy command
- `src/agent.rs`: one subagent run, from its plan to its report
- `src/proxy/`: the proxy
  - `request.rs`, `content.rs`, `toolset.rs`: from a Responses request to a chat request
  - `reply.rs`: from a chat completion to a Responses answer
  - `sse.rs`, `stage.rs`, `stream.rs`, `converter.rs`: from a chat stream to Responses events
  - `tools.rs`: tool names and arguments on their way in both directions
  - `http.rs`, `session.rs`, `upstream.rs`, `usage.rs`: one request on its way through the proxy
  - `request_laws.rs`, `stream_laws.rs`, `run_laws.rs`, `feed_laws.rs`: what holds of every request
    and stream
- `app/`: the program
- `tests/`: examples

The calls into `serde_json` and the few functions of the standard library that are taken on trust
are in `codec.rs` and `text.rs`, each with a comment that says what is claimed of it.
