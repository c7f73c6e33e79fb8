//! Core of a distributed pattern-learning node: a wire message codec for
//! bit-packed frames, an execution controller that runs an opaque stack
//! virtual machine under resource guards, and the topic logic of a
//! publish/subscribe transport.
//!
//! The virtual machine is unverified outside code consumed through a
//! narrow trusted boundary. The contracts of this crate stop at that
//! boundary: they say what the controller decides around every value the
//! machine hands back, but not what happens inside a machine instruction.
//! In particular, a loaded program that makes an instruction's own work
//! fail — an arithmetic instruction driven past its operand range, a
//! command instruction whose process cannot start — can still abort the
//! process from inside a trusted call; no `requires` can exclude such a
//! program, because the machine state it acts on is opaque here.

pub mod control;
pub mod execution;
pub mod message;
pub mod msg;
pub mod source;
pub mod text;
pub mod transport;
