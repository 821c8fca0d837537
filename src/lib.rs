//! One-way byte channel from a producer (usually a microcontroller) to a
//! consumer (a debugging host) through a ring buffer that lives in the
//! producer's RAM.
//!
//! The producer writes bytes into the ring buffer ([`producer::RB`]); the
//! consumer reads and acknowledges them through a debug probe that can read
//! and write the producer's memory ([`consumer::ProducerDevice`]). Both sides
//! agree on the byte layout described in [`layout`].
pub mod block;
pub mod channel;
pub mod consumer;
pub mod layout;
pub mod producer;
