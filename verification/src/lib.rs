//! Dispatch and concurrency core of a language server for LaTeX and BibTeX.
//!
//! The crate holds the decisions of the server as verified, sequential code:
//! the registry of requests in flight with their cancel flags, the workspace
//! of documents with its include closure, the debouncing state machine of the
//! two diagnostics channels, the router from method names to handlers, and the
//! completion providers, which work on what was read off the syntax tree.
//! Threads, channels and the wire stay with the program that drives this
//! library: it hands each message to the library and performs the actions
//! that the library names.
pub mod closure;
pub mod completion;
pub mod diagnostics;
pub mod ident;
pub mod protocol;
pub mod req_queue;
pub mod server;
pub mod table;
pub mod text;
pub mod workspace;
