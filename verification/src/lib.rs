//! Verified core of a multi-channel AI agent backend: canonical message and
//! tool-call types, provider wire-format conversion, tool schemas and argument
//! validation, command safety gates, sub-agent lifecycle, event broadcasting,
//! and the dispatch decisions around them.

// foundations: text, the JSON value model, its codec, and the codec law
pub mod text;
pub mod json;
pub mod json_parse;
pub mod json_laws;

// the canonical conversation and the two provider wire formats
pub mod ai_types;
pub mod openai;
pub mod claude;

// tools: contracts, catalogue, execution rules, and the built-in tools
pub mod tool_types;
pub mod registry;
pub mod executor;
pub mod exec_tool;
pub mod twitter;
pub mod resolve_user;

// the agent loop, sub-agents, and the event bus
pub mod agent_loop;
pub mod subagent;
pub mod broadcast;

// dispatch, transport-facing helpers, and stored settings
pub mod dispatch;
pub mod hooks;
pub mod discord_fmt;
pub mod chat_api;
pub mod settings;
pub mod telemetry;
