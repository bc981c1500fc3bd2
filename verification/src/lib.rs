//! A discrete-event model of a queueing system: a pool of identical service
//! nodes behind a bounded waiting line, driven by arrival and departure
//! events on a virtual clock that counts whole ticks.

pub mod broadcaster;
pub mod distributions;
pub mod events;
pub mod experiment;
pub mod queue;
pub mod request;
pub mod stats;
pub mod system;

pub use request::Request;
