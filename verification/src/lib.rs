//! Reading a text file for a front-end: the file's bytes are decoded as
//! strict UTF-8 and handed back as a tagged reply, success carrying the
//! decoded text and failure carrying a human-readable note.
//!
//! The decode step and the reply are specified against the byte-level UTF-8
//! model of `vstd::utf8`; the blocking read itself stays with the caller,
//! which passes in what the operating system returned.

pub mod content;
pub mod utf8;
