//! Verified core logic of the AGI Workforce desktop assistant: error-message
//! parsers, LLM-response extraction, diff construction, path checks and the
//! small lookup tables that the desktop commands rely on.

pub mod text;
pub mod debugging;
pub mod design;
pub mod diff;
pub mod code_editing;
pub mod file_ops;
pub mod github;
pub mod email;
pub mod chat;
pub mod subscription;
pub mod media;
pub mod lsp;
pub mod git;
pub mod shortcuts;
pub mod automation;
pub mod settings;
pub mod checkpoints;
pub mod realtime;
pub mod file_watcher;
pub mod agent;
pub mod agi;
pub mod background_tasks;
pub mod completion;
pub mod error_reporting;
pub mod computer_use;
pub mod analytics;
pub mod llm;
pub mod mcp;
pub mod browser;
pub mod routing;
pub mod messaging;
pub mod database;
