//! Incremental export of e-reader highlights and notes.
//!
//! The crate holds the rules of the export and proves them: the conversion
//! between the reader's clock and Unix time, the marker of the last export,
//! the selection of new annotations, their grouping by book and the three
//! output formats. Reading databases and files is left to the caller, who
//! hands the library plain values.

pub mod calendar;
pub mod epoch;
pub mod errors;
pub mod locate;
pub mod marker;
pub mod annotation;
pub mod outline;
pub mod reader;
pub mod run;
pub mod structured;
pub mod table;
