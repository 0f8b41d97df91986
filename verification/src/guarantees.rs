//! What each operation does, told from its inputs and its results alone.

pub mod chat;
pub mod commands;
pub mod expiry;
pub mod phrases;
pub mod reports;
pub mod startup;
pub mod values;
pub mod words;
