//! The logic of a small graphical terminal: command-line parsing, shell
//! decisions, input editing, history navigation, prompt text and images.
pub mod command;
pub mod entities;
pub mod picture;
pub mod prompt;
pub mod session;
pub mod text;
