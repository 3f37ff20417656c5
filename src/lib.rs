//! A relay that mirrors chat between an IRC network and a Slack team.
//!
//! The library holds the relay's logic: message translation in both
//! directions, the bounded outbound queues, the back-off policy and the
//! decisions of the connection lifecycle. The program around it performs
//! the network I/O and hands plain values to these functions.

pub mod cfg;
pub mod config;
pub mod irc;
pub mod irc_client;
pub mod lifecycle;
pub mod message;
pub mod names;
pub mod queue;
pub mod slack_client;
