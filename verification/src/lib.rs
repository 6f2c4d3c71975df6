//! The verified core of `matrix-commander-ng`, a command line client for Matrix.
//!
//! The library decides and computes: how the arguments of the command line are read, in which
//! order actions are done, which requests are made for lists of rooms, users and files, and what
//! is printed of the answers. Its functions take plain values and return plain values; the
//! program around it talks to the server, the terminal and the files.

pub mod account;
pub mod args;
pub mod batch;
pub mod credentials;
pub mod delivery;
pub mod dm_rooms;
pub mod ids;
pub mod json;
pub mod listen;
pub mod media;
pub mod message;
pub mod permission;
pub mod program;
pub mod release;
pub mod rest;
pub mod room_create;
pub mod room_info;
pub mod rooms;
pub mod server;
pub mod session;
pub mod text;
pub mod tokens;
pub mod types;
pub mod worklist;

pub use args::Args;
pub use credentials::Credentials;
pub use types::{
    DownloadMediaName, Error, Listen, LogLevel, Login, Logout, Output, Presence, Sync, Verify,
    Version,
};
