//! Adaptive password drill: the difficulty controller, the hint obscurer and
//! the round-by-round session that a terminal front end drives.

pub mod config;
pub mod controller;
pub mod error;
pub mod messages;
pub mod obscure;
pub mod session;
pub mod trusted;
