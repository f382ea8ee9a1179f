//! Core simulation logic of a small village simulation: tile movement, a
//! walkability grid, wildlife, a technology tree, citizen memory, and the
//! parsing of language-model replies.

pub mod agent;
pub mod animal;
pub mod decode;
pub mod llm;
pub mod move_state;
pub mod pathfinding;
pub mod random;
pub mod resource;
pub mod tech;
pub mod text;
pub mod world;
