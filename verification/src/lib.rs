//! Routing core of an input-remapping daemon and of its terminal client.
//!
//! The daemon is a set of actors that exchange [`event::Event`]s through one
//! [`broker::EventBroker`]. Every event belongs to exactly one
//! [`topic::Topic`]; the broker forwards it to the subscribers that asked for
//! that topic. The modules below hold the rules of that runtime, each stated
//! as a contract over a mathematical model and proved. Waiting on a channel,
//! a socket or a task is left to the caller: where the runtime waits, the
//! library says what to wait for and what to do with the answer.

pub mod event;
pub mod topic;
pub mod runtime;
mod text;
pub mod broker;
pub mod pipeline;
pub mod config;
pub mod actor;
pub mod daemon;
pub mod app_manager;
pub mod client;
pub mod wire;
