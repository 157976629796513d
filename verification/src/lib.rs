//! Sessions of a terminal multiplexer, one for each registered project.
//!
//! A project is a name and a directory. Its layout, a list of windows, stands in a
//! file inside that directory. Starting a project brings up a session with one
//! window for each entry of the layout, each split into two panes; ending it
//! interrupts what runs in the panes and destroys the session.
//!
//! This library decides and its caller acts. It reads no file and runs no process:
//! the registry and the layouts come in as values, the multiplexer's answers come
//! in as text, and what is to be done goes out as arguments for the multiplexer.
//!
//! - [`config`]: the registry, the layouts and the defaults of a layout.
//! - [`tmux`]: the calls that start and end a session, and the reading of what
//!   the multiplexer prints.
//! - [`launcher`]: the commands `start`, `end` and `list`, step by step.
//! - [`error`]: the failures that end a command.
//! - [`text`]: the operations on text that the others are stated in.

pub mod config;
pub mod error;
pub mod launcher;
pub mod text;
pub mod tmux;
