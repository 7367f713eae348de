//! Verified core of a terminal chat front end: ANSI styling of text, the
//! geometry of the two screen domains, the prompt editing rules and the
//! bookkeeping of the conversation.

pub mod text;
pub mod color;
pub mod term;
pub mod state;
