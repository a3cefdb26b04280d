# agent_core

The verified core of an LLM agent runtime, written in Verus.

- `src/` is the library. Its functions are verified, except the few
  trusted wrappers marked `#[verifier::external_body]` that call
  `serde_json`, `tiktoken-rs` and the clock. It holds the
  conversation messages and their JSON wire format, in-memory and persistent history
  windows, compression planning, token estimates (through `tiktoken-rs`),
  the tool-calling loop's decisions, the ReAct think-phase parser and the
  ReCAP memory, tool specifications, argument decoding and dispatch, the
  OpenAI sender's retry policy, the streaming tool-call accumulator, and the
  bookkeeping of the YAML data store. Laws that span several functions are
  public proof functions named `law_*`.
- `app/` is ordinary Rust around the library: the async traits (`Agent`,
  `History`, `Tool`, `LlmSender`, `LlmProvider`, `SystemPromptSegment`),
  file and network I/O with `tokio` and `reqwest`, serde forms of the data,
  and the loops that alternate I/O with the library's decisions.
- `tests/` exercises the library on concrete values.
