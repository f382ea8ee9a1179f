//! Language-model side of the simulation: citizen memory, prompt text, the
//! inference queue, and the parsing of model replies.

pub mod document;
pub mod memory;
pub mod prompt;
pub mod provider;
pub mod queue;
pub mod response_parser;
