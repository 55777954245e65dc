//! What the operations are for.
//!
//! The laws here speak of what goes in and what comes out: of files, hashes and times, of the
//! calls that are made and the bytes that they carry. They do not lean on how an operation is
//! put together.

pub mod accessors;
pub mod changes;
pub mod commanding;
pub mod cycles;
pub mod envelopes;
pub mod functions;
pub mod hosting;
pub mod interfaces;
pub mod listings;
pub mod models;
pub mod operations;
pub mod planning;
pub mod settings;
pub mod texts;
pub mod transfers;
