//! Planning and decision logic of a small backup driver: it reads where to
//! back up to and what to back up, works out the destination of every
//! source folder, drives one mirroring copy per folder and decides, from
//! each copy's exit code, whether to go on or stop.

pub mod text;
pub mod utf16;
pub mod number;
pub mod paths;
pub mod config;
pub mod network;
pub mod robocopy;
pub mod tooltip;
pub mod session;
