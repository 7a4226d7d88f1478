//! SubReader core: the verified logic of a cross-device e-book reader.
//!
//! Hybrid logical clocks and the sync engine's decisions, plain-text and
//! EPUB structure parsing, the authentication state machine, and the
//! backend's request rules, each stated as contracts that Verus proves.

pub mod hlc;
pub mod sync_engine;
pub mod scheduler;
pub mod file_sync;
pub mod network;
pub mod ffi_codes;
pub mod server_types;
pub mod server_rules;
pub mod passwords;
pub mod numfmt;
pub mod parse_error;
pub mod text;
pub mod types;
pub mod epub_paths;
pub mod xml;
pub mod opf;
pub mod toc;
pub mod dom;
pub mod epub;
pub mod epub_parser;
pub mod auth;
pub mod token_store;
pub mod txt;
pub mod state_error;
