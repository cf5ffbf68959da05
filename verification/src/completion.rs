//! Completion: the component database and the providers that work on what
//! was read off the syntax tree.
pub mod database;
pub mod syntax;
pub mod tikz;
pub mod begin_command;
pub mod color_model;
pub mod cursor;
pub mod citation;
