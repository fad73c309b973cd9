//! Core of a background service that tracks named projects, their
//! per-project properties and enabled plugin sets, and dispatches
//! lifecycle events to plugins.
//!
//! The library holds everything that can be stated and proved: the
//! project store and its invariants, the command router and its
//! handlers, the plugin registry and the plugins' pure logic, the
//! wire framing and message encoding, the persistence document codec,
//! and the session/shutdown state machine.  The surrounding process
//! (socket accept loop, file reads and writes, external tools) drives
//! these functions and performs the effects they decide on.

pub mod strutil;
pub mod event;
pub mod props;
pub mod config;
pub mod plugin;
pub mod wire;
pub mod frame;
pub mod daemon;
pub mod laws;
