//! Retrieval of buffered telemetry records from an embedded device over a
//! request/reply byte link, written so that no function here performs I/O.
//!
//! The crate is layered leaf first:
//!
//! * [`message`]: the commands, replies and telemetry records exchanged;
//! * [`codec`]: the binary frame format, with its round-trip and size laws;
//! * [`error`]: the failure taxonomy;
//! * [`session`]: one request/reply exchange and the polling loop that
//!   drains the device, as a state machine over exchange outcomes;
//! * [`store`]: the rules of the persisted record collection;
//! * [`orchestrator`]: one whole retrieval cycle, as a state machine that
//!   tells its driver which outside action to perform next.
//!
//! A driver owns the byte channel and the persisted document. It performs the
//! action a machine asks for and hands the outcome back as a plain value.
//!
//! Records carry single-precision readings. They are held here as the 32-bit
//! IEEE-754 pattern of each reading, which is exactly what travels in a frame.

pub mod message;

pub mod error;

pub mod codec;

pub mod session;

pub mod store;

pub mod orchestrator;
