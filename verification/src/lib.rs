//! Idle-orchestration core for a Wayland session daemon.
//!
//! The library holds the event-driven state machine and the staged
//! scheduler: action queues per power state, the manager state with its
//! pause/inhibitor discipline, the timeout and pre-warn computations, the
//! lock-supervision decisions, media and application inhibition rules, and
//! the IPC command surface. Everything here is plain data and verified
//! logic; reading clocks, spawning processes and listening on sockets is
//! left to the surrounding daemon, which feeds observations in as values
//! and carries the returned directives out.

pub mod action;
pub mod app_inhibit;
pub mod config;
pub mod events;
pub mod info;
pub mod ipc;
pub mod json;
pub mod laws;
pub mod lock;
pub mod logging;
pub mod manager;
pub mod media;
pub mod power;
pub mod process;
pub mod queue;
pub mod scheduler;
pub mod session;
pub mod state;
pub mod text;
