//! Supervision of developer-tool child processes and of project
//! directories for a desktop host.
//!
//! The host does the work on the outside: it reads files, starts and kills
//! processes, sleeps and registers file system watchers. This library
//! decides: which application a project holds and how it is launched, which
//! lines of its output are signals, how it is stopped, and which file system
//! events are passed on. Every function states what it returns in a
//! contract that Verus proves.

pub mod browse;
pub mod handshake;
pub mod inspector;
pub mod json;
pub mod launcher;
pub mod order;
pub mod pattern;
pub mod settings;
pub mod stream;
pub mod supervisor;
pub mod terminator;
pub mod text;
pub mod tree;
pub mod walk;
pub mod watcher;
