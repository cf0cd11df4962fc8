//! Verified core of a webhook-driven trivia chat bot.
//!
//! The library holds the pure logic: markup sanitisation, message-block
//! construction, request-signature verification, question selection, and the
//! interaction dispatcher.  Network I/O and JSON (de)serialisation live in the
//! surrounding application, which hands this crate plain values.

pub mod builder;
pub mod dispatch;
pub mod models;
pub mod outbound;
pub mod signature;
pub mod source;
pub mod text;
