//! A two-player, turn-based board game kept as a deterministic state machine.
//!
//! Any number of games run concurrently. Each game moves through a fixed
//! lifecycle, `Open -> Playing -> Completed`, driven by three operations:
//! creating a game, joining it, and playing a move. Three ordered id lists
//! partition the existing games by lifecycle stage so that clients can
//! enumerate them page by page without scanning every record.
//!
//! Everything here is pure: the host that dispatches messages, persists the
//! store and supplies the trusted caller identity lives outside this crate
//! and hands plain values in and out.

pub mod board;
pub mod contract;
pub mod fairness;
pub mod idset;
pub mod laws;
pub mod msgs;
pub mod state;

pub use board::calculate_winner;
