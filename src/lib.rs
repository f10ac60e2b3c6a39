//! Decides which waste bin goes out tonight from a published collection
//! schedule: the schedule line of one address is cut into five-character
//! tokens, each token is decoded into a calendar date and a bin label, and
//! the entry due tomorrow is picked out.

pub mod error;
pub mod bin;
pub mod date;
pub mod text;
pub mod tokens;
pub mod schedule;
