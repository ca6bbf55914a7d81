//! Verified core of a graphical front end for `adguard-cli`: reading the
//! command's replies, deciding what they mean, and the state machine of the
//! user interface.

pub mod text;
pub mod cli;
pub mod app;
pub mod present;
