//! Supervision of a small fleet of game-server processes: a registry that
//! holds at most one process handle per server, the health monitor's
//! decisions (crash classification, auto-restart, freeze detection), the
//! cron-driven task scheduler, and the remote-console text helpers.
//!
//! Everything here is decision logic over plain values (cron expressions are
//! evaluated through the `cron` crate); spawning processes, sockets, timers
//! and storage belong to the embedding application.
pub mod models;
pub mod paths;
pub mod idmap;
pub mod supervisor;
pub mod launch;
pub mod mod_compat;
pub mod monitor;
pub mod rcon;
pub mod scheduler;
