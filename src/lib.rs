//! A client that runs process-manager (`pm2`) subcommands on a remote host
//! over a secure shell: the `user@host` parser, the remote command lines,
//! the cleaning of terminal noise from streamed output, and the decisions of
//! a run (connect, authenticate, bootstrap, execute, stream, close) as a
//! state machine whose caller performs the network work.
use vstd::prelude::*;

pub mod command;
pub mod host;
pub mod laws;
pub mod noise;
pub mod runner;

verus! {

} // verus!
