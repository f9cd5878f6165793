//! Status lines for version-controlled files, with terminal colours.
//!
//! The crate builds the fixed-width status column shown in front of each
//! path of a working tree, and the text buffer that carries it: plain text
//! plus the places where the foreground colour changes, rendered into one
//! string with ANSI escape sequences.
//!
//! - [`colored_string`] holds the buffer, [`color`] the colours and their
//!   escape sequences.
//! - [`model`] says what a buffer is and what it renders to; [`laws`] holds
//!   what follows for every buffer.
//! - [`status`] and [`submodule`] write the status of a file and of a
//!   submodule into a buffer.
//! - [`strings`] relates characters to bytes; [`std_string`] states what is
//!   taken on trust of the standard library.

pub mod color;
pub mod colored_string;
pub mod laws;
pub mod model;
pub mod status;
pub mod std_string;
pub mod strings;
pub mod submodule;
