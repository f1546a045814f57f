//! A small interactive shell: line tokenizer, built-in commands, redirection
//! and pipeline planning, with their behaviour proved.

pub mod text;
pub mod parser;
pub mod parse_laws;
pub mod redirect;
pub mod builtins;
pub mod pipeline;
pub mod repl;
pub mod completion;
pub mod history;
