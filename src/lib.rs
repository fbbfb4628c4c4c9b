//! Combat-log ingestion core: identity resolution, participant tracking,
//! the text-log grammar, the encounter attempt state machine and the
//! ranking aggregation that accompanies a committed attempt.

pub mod attempt;
pub mod builds;
pub mod data;
pub mod event;
pub mod grammar;
pub mod instance;
pub mod message;
pub mod parser;
pub mod participant;
pub mod ranking;
pub mod resolve;
pub mod search;
pub mod server;
pub mod text;
pub mod time_util;
pub mod tracker;
pub mod unit;
