//! Core logic of a PuTTY-like SSH client: saved sessions with encrypted
//! passwords, the terminal connection dialog, key encoding, destination
//! parsing, the graphical client's connection state, colour mapping and
//! icon decoding.

pub mod cli;
pub mod color;
pub mod config;
pub mod crypto;
pub mod gui;
pub mod icon;
pub mod keys;
pub mod ssh;
pub mod term;
pub mod text;
pub mod tui;
