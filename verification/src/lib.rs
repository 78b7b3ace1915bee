//! Verified core of the HatcherLabs neural mesh: the memory graph, the
//! agent contracts, the decision framing of the neural mesh, battle
//! scoring, console command parsing and digest-backed envelopes.

pub mod memory;
pub mod text;
pub mod console;
pub mod agents;
pub mod neural;
pub mod playground;
pub mod envelope;
