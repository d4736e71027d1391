//! Concatenates the text files of a directory into one tagged text artifact.
//!
//! The library holds the rules: which entries of a directory the walk
//! visits, how each file is wrapped in tags named after its relative path,
//! what is appended after them, what the two configuration lists default
//! to, and how the selection form reacts to its events. Reading directories
//! and files, writing the artifact and drawing the form are left to the
//! caller, who hands over plain values and receives plain values back.
//!
//! - [`walker`]: a directory as it was listed, and the walk over it;
//! - [`file_ops`]: the extension filter, the tagged text that a walk
//!   emits, and the section appended to it;
//! - [`selection`]: the selection that a run works on, and the whole
//!   artifact made from it;
//! - [`gui`]: the state of the selection form;
//! - [`filetypes`], [`presets`], [`config`]: the two configuration lists;
//! - [`cli`]: the command line and the exit status;
//! - [`text`]: extensions, lines, trimming and case;
//! - [`theorems`]: what holds of every walk.

pub mod cli;
pub mod config;
pub mod file_ops;
pub mod filetypes;
pub mod gui;
pub mod presets;
pub mod selection;
pub mod text;
pub mod theorems;
pub mod walker;
