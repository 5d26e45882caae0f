//! A pluggable remote-agent / controller protocol engine.
//!
//! A resident counterpart process exchanges framed messages with a remote
//! agent over a datagram transport (the data plane), while a local
//! connection-oriented controller channel (the control plane) lets an
//! operator queue, inspect and retract commands and request shutdown.
//! This crate holds the verified core: the message codecs with their
//! round-trip guarantees, the command pool and its mutation rules, and the
//! pure protocol step functions the runtime loops are built from.

pub mod agent;
pub mod cli;
pub mod controller;
pub mod cryptography;
mod errors;
pub mod microchip;
pub mod plugins;
pub mod server;
pub mod wire;

pub use errors::CoreError;
