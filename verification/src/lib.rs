//! Verified core of an LLM agent runtime: conversation data and histories,
//! compression planning, the tool-calling loop's decisions, the ReAct and
//! ReCAP agents' logic, tool specifications, argument decoding and
//! dispatch, the OpenAI wire format, and the data store's bookkeeping.

pub mod text;
pub mod paths;
pub mod sort;
pub mod json;
pub mod llm;
pub mod tokens;
pub mod compression;
pub mod history;
pub mod tools;
pub mod tool_args;
pub mod builtin_tools;
pub mod workspace_tools;
pub mod stream;
pub mod sender;
pub mod runtime;
pub mod agent;
pub mod react;
pub mod recap;
pub mod context;
pub mod session;
pub mod data_store;
pub mod support;
pub mod prompt_runtime;
