//! The decision core of a chat moderation companion.
//!
//! The companion watches a chat, keeps a list of banned phrases along with a database
//! table, and drops a phrase when somebody gets away with saying it.
//! This crate holds the decisions that takes: it reads plain values and hands
//! back plain values, and the program around it does the talking to the chat
//! server, to the database and to the web.

pub mod command;
pub mod guarantees;
pub mod hits;
pub mod intake;
pub mod laws;
pub mod model;
pub mod moderate;
pub mod pattern;
pub mod report;
pub mod seed;
pub mod sequence;
pub mod supervisor;
pub mod text;
pub mod watch;
