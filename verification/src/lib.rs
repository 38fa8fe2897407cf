//! A course-assignment assistant: numbered assignment directories per subject,
//! filled from a template and the latest download, and opened in viewers.
//!
//! The library decides; the program around it touches the disk, the terminal
//! and other processes, and hands what it found back as plain values.
//!
//! - [`format`]: templates with named placeholders, rendered by `formatx`.
//! - [`replace`]: literal replacement in text.
//! - [`settings`]: the settings and what they say of names and viewers.
//! - [`subject`]: subjects, their numbering, and the steps of creating and
//!   opening an assignment.
//! - [`interface`]: the front-ends, and how an answer picks a subject.
//! - [`error`]: the error that every operation reports.
//! - [`text`]: characters of strings, and the order of words.

pub mod error;
pub mod format;
pub mod interface;
pub mod replace;
pub mod settings;
pub mod subject;
pub mod text;
