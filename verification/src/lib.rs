pub mod builtins;
pub mod command;
pub mod completion;
pub mod pipeline;
pub mod redirect;
pub mod resolver;
pub mod strutil;
pub mod tokenizer;
