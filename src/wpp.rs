//! The W++ character-sheet format: `[Type("Name") { Key("v1" + "v2") ... }]`.

pub mod format;
pub mod header;
pub mod item;
pub mod parser;
pub mod tokenizer;
