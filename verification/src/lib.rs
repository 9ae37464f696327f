//! Validator and parser for the RUN/GRP/SEC hierarchy of grading files.
//!
//! A RUN file names a grading run and lists GRP files; each GRP file names a
//! group and lists SEC files; each SEC file holds a section header (name and
//! credit count) followed by one student record per line.  The library parses
//! each file kind, resolves reference lines against the RUN file's directory,
//! and drives the whole descent through a state machine that asks its host
//! for file contents one at a time and stops at the first structural fault.

pub mod text;
pub mod credits;
pub mod records;
pub mod paths;
pub mod builder;
pub mod messages;
pub mod laws;
