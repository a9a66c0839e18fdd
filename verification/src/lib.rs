pub mod coins;
pub mod counter;
pub mod fibonacci;
pub mod messages;
pub mod rect;
pub mod strings;
pub mod tokenizer;
