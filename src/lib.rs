//! Session-lifecycle controller for a privileged tunnel-client process.
//!
//! The library holds the decisions of the process: where its files live, how
//! the auth token is found, how the system DNS override is installed and
//! removed, how control messages are framed, and how the supervisory loop
//! reacts to engine notifications, signals and control input. Performing the
//! resulting actions (running system commands, talking to the tunnel engine,
//! reading files) is left to the host program.
pub mod dirs;
pub mod dns;
pub mod event_loop;
pub mod ipc;
pub mod text;
pub mod shared;
pub mod startup;
pub mod token;
