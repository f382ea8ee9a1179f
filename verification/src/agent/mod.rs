//! Citizens: their emotions, the rule-based behavior state machine, and the
//! choice of who starts a conversation.

pub mod behavior;
pub mod citizen;

pub mod conversation;
