//! Discrete-time simulation of simplified spiking units.
//!
//! A network of dendrites, synapses and neurons evolves over discrete time
//! steps. Dendrites and neurons are three-phase state machines (resting,
//! activated, refractory) that each grow an append-only series of membrane
//! potentials; synapses transmit a bounded, smoothed scalar derived from
//! upstream dendrite potentials. A thin composer wires the units into an
//! acyclic graph, finds an evaluation order that respects the wiring, and
//! drives all units step by step.
//!
//! Potentials are fixed-point values counted in tenths of a millivolt, so
//! every constant of the state machines is represented exactly. Synapse
//! values are counted in millionths of their saturation bound and stay
//! strictly inside the open interval (-1, 1) of that scale.

pub mod model;
pub mod network;
pub mod units;
