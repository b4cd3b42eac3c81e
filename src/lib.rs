//! A small interactive command interpreter: the line tokenizer, the escape
//! resolver, the command model builder, the decisions of the dispatcher and
//! its builtins, and tab completion.

pub mod text;
pub mod tokenizer;
pub mod escape;
pub mod command;
pub mod dispatch;
pub mod builtins;
pub mod completion;
pub mod laws;
