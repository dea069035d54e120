//! A reliable, ordered transport core over datagrams: a delay-based congestion
//! controller, the wire format of its out-of-band feedback, a packet pacer's
//! timing, and the decisions that bind them to an ARQ engine.

pub mod endpoint;
pub mod feedback;
pub mod le;
pub mod listener;
pub mod pacer;
pub mod scream;
pub mod segment;
