//! A line-oriented TCP command server's core: the per-connection state
//! machine, the accept state machine, the reactor's bookkeeping and the
//! command registry, each stated as plain values and proved.
pub mod client;
pub mod command;
pub mod event_loop;
pub mod reactor;
pub mod server;
