//! Recording of CAN bus traffic into a table, and relaying it.
//!
//! Frames come from a text log, from a live interface or from a relay
//! ([`candump`], [`socketwrap`], [`tcpwrapper`]). Each is decoded into named
//! signals elsewhere and worked into rows of one fixed time window each
//! ([`window`]), which grow as typed, nullable columns ([`store`]) under a
//! schema derived from the bus description ([`schema`]), and end as one table
//! ([`batch`]). A second part relays raw frames to any number of subscribers
//! as fixed-size binary records ([`wire`], [`relay`]). [`args`] reads the
//! command line.
//!
//! Everything in this crate is verified with Verus, and nothing in it reads a
//! file, a socket or the clock. Floating-point quantities travel as their
//! IEEE-754 bit patterns, or as the whole numbers and truth values that the
//! rules here read of them; what has to be computed on them is left to the
//! caller.

pub mod args;
pub mod batch;
pub mod candump;
pub mod relay;
pub mod schema;
pub mod socketwrap;
pub mod store;
pub mod tcpwrapper;
pub mod text;
pub mod window;
pub mod wire;
