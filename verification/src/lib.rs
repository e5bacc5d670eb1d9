//! Fixed-size, fixed-alignment byte buffers: a contract every conforming
//! buffer type provides, a layout attestation for concrete types, and a
//! generator that turns a terse type declaration into a conforming buffer
//! type after validating it against the layout rules.

pub mod blocks;
pub mod buffer;
pub mod decimal;
pub mod diag;
pub mod generate;
pub mod layout;
pub mod parse;
pub mod token;
