//! Rules and bookkeeping of a mailbox triage agent: which folder a message
//! belongs in, which messages of a fetch are new, and what to ask of the mail
//! server next. All network traffic is left to the caller.

pub mod address;
pub mod classify;
pub mod config;
pub mod header;
pub mod mover;
pub mod pattern;
pub mod sync;
pub mod text;
pub mod watch;
