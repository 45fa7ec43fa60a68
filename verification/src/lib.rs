//! Differential fuzzing of EVM implementations by type hashes.
//!
//! Two EVMs run the same bytecode and log every instruction. A log ([`evm_log`]) is a list
//! of steps ([`step`]), each with a class ([`type_hash`]). The feedback ([`feedback`]) calls
//! an input interesting if its log shows a new class; the oracle ([`oracle`]) compares the
//! traces ([`trace`]) of both logs and reports each kind of difference once.
//! [`differential`] runs two executors after each other as one.

pub mod checksum;
pub mod corpus;
pub mod differential;
pub mod error;
pub mod evm_log;
pub mod executor;
pub mod feedback;
pub mod generator;
pub mod hex_input;
pub mod history;
pub mod observer;
pub mod oracle;
pub mod step;
pub mod text;
pub mod timeout;
pub mod trace;
pub mod type_hash;
