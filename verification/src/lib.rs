//! Organizes Brazilian fiscal XML documents (NFe, CTe, MDFe, NFCe) into a
//! destination folder hierarchy derived from the 44-digit access key embedded
//! in each file's name.
//!
//! This crate holds the decision logic of the organizer, verified with Verus:
//! locating access keys in filenames, classifying keys into destination
//! directories (including the six-month age bucket for NFe and CTe), the
//! path-traversal defense for archive entries, and the collision-avoiding
//! copy plan. The surrounding directory walk, archive extraction and file
//! copies are ordinary I/O performed by the accompanying binary.

pub mod archive;
pub mod classify;
pub mod dates;
pub mod key;
pub mod scan;
pub mod schedule;

pub use classify::Destination;
pub use dates::Date;
pub use key::AccessKey;
