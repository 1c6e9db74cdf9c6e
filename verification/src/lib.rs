//! Core of an interactive terminal editor's event dispatcher: priority
//! selection over asynchronous sources, protocol routing, progress-token
//! tracking, diagnostic position translation, render throttling, job
//! completion bookkeeping, and the terminal-mode lifecycle.

pub mod args;
pub mod dap;
pub mod diagnostics;
pub mod editor;
pub mod jobs;
pub mod progress;
pub mod router;
pub mod scheduler;
pub mod terminal;
pub mod text;
