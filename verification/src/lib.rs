//! A deterministic simulation-testing harness for a best-effort peer-to-peer
//! broadcast protocol.
//!
//! Node logic is written once against the [`simulation::Simulation`]
//! transport capability and runs unchanged over a seeded loopback transport
//! ([`shuffle_simulation::ShuffleSimulation`]) or over a network transport
//! that the embedding program supplies ([`simulation::RawTransport`]).
//!
//! - [`simulation`]: the transport capability.
//! - [`shuffle_simulation`]: the simulated transport, whose queue a seed
//!   keeps in order or reshuffles; [`delivery`] holds what it guarantees.
//! - [`peers`] and [`broadcast`]: the peer set, and the layer that fans a
//!   payload out to it and logs what comes in.
//! - [`node`]: the node, as a machine that is handed one event at a time.
//! - [`framing`]: the newline-delimited wire format of the network
//!   transport.
//! - [`buffer`] and [`text`]: byte buffers and text, as far as the logic
//!   needs them.
//!
//! The library never waits, prints or touches the network. Every function of
//! it is verified against its contract, but for the few calls into `bytes`,
//! `rand` and `std` whose contracts are stated and not proved; each of those
//! says so where it stands.

pub mod broadcast;
pub mod buffer;
pub mod delivery;
pub mod error;
pub mod framing;
pub mod multiset_lemmas;
pub mod node;
pub mod peers;
pub mod shuffle_simulation;
pub mod simulation;
pub mod text;
