//! Stateful Full Cone / Address-Restricted Cone NAT core.
//!
//! The library owns the translation state machine: the mapping table that
//! allocates and reuses external ports, the per-flow connection table that
//! tracks liveness, the filtering policy that decides which inbound packets
//! are admitted, the garbage collector that reclaims expired state, and the
//! hook lifecycle state machine that governs attach/detach ordering.
//!
//! Packet I/O, signal handling and the attachment of the translators to a
//! concrete network interface are environment-specific and live outside this
//! crate; the core receives parsed header tuples and returns translation
//! decisions.

pub mod types;
pub mod seqs;
pub mod state;
pub mod mapping;
pub mod conn;
pub mod policy;
pub mod egress;
pub mod ingress;
pub mod collector;
pub mod lifecycle;
pub mod laws;
