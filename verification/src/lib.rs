//! Session runtime for interactive terminal applications served over a
//! multiplexed remote-shell connection.
//!
//! Every accepted channel gets a session of its own. This crate holds the
//! parts of that runtime that decide something: how raw input bytes become
//! interaction events, how rendered bytes are framed and handed to the
//! network side, how a session's control loop reacts to each thing that can
//! happen to it, and how the sessions of one connection are kept apart.
//! Each of them is stated as a contract and proved.
//!
//! The transport, the renderer and the embedded application stay outside:
//! the embedding program performs what the functions here decide.
//!
//! - `input`: the decoder from input bytes to interaction events.
//! - `terminal`: the buffering writer that the renderer draws into.
//! - `forwarder`: the task that carries its frames to the network.
//! - `runner`: the control loop of one session.
//! - `handler`: the registry of a connection's sessions and its callbacks.
//! - `loader`: the item list behind the embedded application.

pub mod input;
pub mod terminal;
pub mod forwarder;
pub mod runner;
pub mod handler;
pub mod loader;
