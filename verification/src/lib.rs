//! A verified core for a terminal snippet manager: an ordered list of
//! title/description pairs, the interaction state machine that browses and
//! edits it, and the JSON codec used to persist it.

pub mod codec;
pub mod machine;
pub mod snippet;
pub mod state;
pub mod text;
