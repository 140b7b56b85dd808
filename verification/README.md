# zterm_llm

The local-LLM part of the Zterm terminal as a Verus-verified library.

- `src/` — the verified library: providers and their endpoints (`provider`),
  settings (`settings`), model identifiers and their hex encoding (`llm_id`,
  `model_id`), chat and agent messages (`messages`), the tools an agent
  request offers (`tools`), what a tool call does and how its output is
  reported (`tool_calls`), server-sent-event framing and stream buffering
  (`sse`), client configuration and model lists (`client`), the agent
  conversation state machine (`agent_loop`), the layout of a local answer
  (`response`), the subshell footer's state (`footer`), links (`links`),
  dev-image query types (`dev_images`) and the loading label (`loading`).
- `app/` — the I/O around it: HTTP with `reqwest`, JSON with `serde`,
  processes and files with `tokio`, and the asynchronous agent loop.
- `tests/` — tests of the library, run against the compiled code.

Three parts of Zterm's local-LLM code are not here. Registering the settings
as a singleton (`LocalLLMSettings::init`) and drawing the shimmering loading
text belong to Zterm's UI framework, which is not a published crate; the label
that text shows is `loading::loading_label`. The request that goes to Zterm's
own server when local inference is off is built from the server's API types,
which are not published either; the decisions taken before it (which model is
local, which tools a request offers, the logging metadata) are in `src/`.
