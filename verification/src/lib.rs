//! A user record, messages of three kinds, wrapping arithmetic, and the
//! reading of a number from a line of text, each with the text it is reported
//! in.

pub mod arith;
pub mod decimal;
pub mod input;
pub mod message;
pub mod user;
