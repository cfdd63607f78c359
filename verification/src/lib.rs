//! A rewindable stream buffer.
//!
//! A source of byte chunks that can be read only once is wrapped in a
//! stream that hands each chunk on unchanged while keeping a copy, and that,
//! once the source has ended, replays the copy in chunks of a fixed size,
//! pass after pass. The copy lives in memory until it outgrows a threshold
//! and in a temporary file from then on. An optional limit bounds it.
//!
//! The stream is a state machine that is driven from outside: it polls no
//! source and opens no file. A driver feeds it events and carries out the
//! actions it answers with. What the machine does is fixed by the
//! transition function of [`model`], which [`stream`] is proved to follow;
//! [`laws`] states what follows from it, for a driver and a filesystem that
//! do as they are told ([`driver`]).
//!
//! The byte containers come from the `bytes` crate and the file names from
//! `uuid`; what is assumed of them is stated in [`chunks`] and [`names`].

pub mod chunks;
pub mod config;
pub mod driver;
pub mod error;
pub mod laws;
pub mod model;
pub mod names;
pub mod replay;
pub mod stream;
