//! A line-based chat protocol, proved against its contracts.
//!
//! The server's side is the core: `codec` takes frames apart and puts them
//! together, `connection` is the state machine of one connection, `store`
//! makes the record and the file of a session, `broadcast` fans chat events
//! out, and `hex` is the text form in which records are kept.
//!
//! Around it stand the decisions of the terminal client (`client`) and of
//! the interactive shell (`shell`, `commands`, `session`, `host`), and the
//! kinds of log line (`logging`). `text` holds what they share: white space,
//! searching and splitting.
//!
//! The library does no input or output. A program reads the sockets, the
//! keys and the files, hands what it read to these functions, and carries
//! out what they return.

use vstd::prelude::*;

pub mod broadcast;
pub mod client;
pub mod codec;
pub mod commands;
pub mod connection;
pub mod hex;
pub mod host;
pub mod logging;
pub mod session;
pub mod shell;
pub mod store;
pub mod text;
