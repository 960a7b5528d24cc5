//! The decisions of a desktop shell around a local `dsh web` engine.
//!
//! The shell runs one engine: it reuses the one it has, attaches to one that already serves the
//! canonical port, or spawns one on a free port. What it sends, how it reads what comes back,
//! what it does next and what it tells the user are decided here, on plain values. Sockets,
//! processes, windows and the pasteboard are the caller's: each function says what to do, and
//! takes what came of it.
pub mod ascii;
pub mod auth;
pub mod boot;
pub mod discovery;
pub mod engine;
pub mod http;
pub mod menu;
pub mod paste;
pub mod path;
pub mod ports;
pub mod report;
pub mod settings;
pub mod shutdown;
pub mod start;
pub mod text;
