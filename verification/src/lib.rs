//! kapollo: the verified core of a split-pad terminal REPL that wraps a real
//! shell. This library holds the editing, selection, block-capture, routing,
//! keymap and status-bar logic; the terminal, PTY and file I/O live around it.

pub mod action;
pub mod app;
pub mod cli;
pub mod clipboard;
pub mod config;
pub mod hyperlink;
pub mod input;
pub mod modes;
pub mod output;
pub mod pty;
pub mod selection;
pub mod session;
pub mod slash;
pub mod spike;
pub mod term;
pub mod text;
pub mod ui;
