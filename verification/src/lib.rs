//! Host runtime for discrete-time simulation modules that run inside a
//! sandboxed linear-memory virtual machine.
//!
//! The crate is organised in three layers, leaves first:
//!
//! * a message codec ([`codec`]) that serialises and deserialises the five
//!   request/response message pairs of the call protocol,
//! * a model-description registry ([`model_conversion`]) mapping variable
//!   identifiers to their declared name, value type, causality and default,
//! * an instance lifecycle and call dispatcher ([`runtime`]) that owns the
//!   sandbox handles, drives the size-negotiated call protocol and validates
//!   every request and response against the registry.
//!
//! The guest side of the protocol is exercised by the sample adder module
//! ([`adder`]), which decodes requests, keeps the simulation state and
//! encodes responses, and by the double pendulum's variable bookkeeping
//! ([`dpend`]); the pendulum's floating-point physics, like the adder's
//! floating-point kernel, belongs to the embedder.
//!
//! Simulated time and real-valued variables travel through the protocol as
//! raw IEEE-754 double bit patterns (`u64`); the runtime never performs
//! floating-point arithmetic on them.

pub mod adder;
pub mod codec;
pub mod dpend;
pub mod errors;
pub mod idmap;
pub mod mdcodec;
pub mod model_conversion;
pub mod model_description;
pub mod runtime;
pub mod sandbox;
pub mod types;
pub mod validate;
