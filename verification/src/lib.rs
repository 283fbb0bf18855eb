//! The verified core of a controller for a motorised standing desk: the
//! store of named heights, the resolution of what the user asked for, the
//! retry policy for connecting to the desk, and the move to a target height
//! with its single correction.
//!
//! Nothing here talks to a desk, a file or a terminal. The caller does, and
//! hands in what it read and what the desk reported.

pub mod command;
pub mod config;
pub mod connection;
pub mod motion;
pub mod positions;
pub mod text;
