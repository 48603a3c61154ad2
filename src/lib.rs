//! Core of a beat-synchronised shader compositing pipeline: the session
//! clock, keyframe automation, the render-stage graph, the registry of named
//! inputs, the control protocol that mutates them, and the decisions of the
//! frame-capture sink.

pub mod ratio;
pub mod transport;
pub mod automation;
pub mod named;
pub mod inputs;
pub mod stage;
pub mod graph;
pub mod sink;
pub mod control;
