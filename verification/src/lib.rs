//! An HTTP timestamp value: an instant in UTC with one-second resolution,
//! parsed from any of the three textual timestamp grammars that header
//! fields have historically used, and always rendered back in the single
//! preferred fixed-length format (`Sun, 06 Nov 1994 08:49:37 GMT`).

pub mod calendar;
pub mod date;
pub mod grammar;
pub mod laws;
pub mod parse;
pub mod render;

pub use calendar::MAX_EPOCH_SECS;
pub use date::Error;
pub use date::HttpDate;
