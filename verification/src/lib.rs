//! The verified core of superdeduper: the file inventory (directory walk, volume record
//! tables, cached snapshots) and the decisions behind the desktop surfaces that show it.
//!
//! Every function states in its contract what it returns or changes. Nothing in here reads a
//! disk, a clock or a socket: what was observed comes in as plain values, and what has to be
//! done goes out as plain values.
#![allow(unused_imports)]

pub mod channel;
pub mod gui;
pub mod inventory;
pub mod leaderboard;
pub mod numbers;
pub mod paths;
pub mod sizes;
pub mod sort;
pub mod tables;
pub mod text;
pub mod time;
