//! Target resolution and install-command synthesis for operating-system
//! package managers.
pub mod text;
pub mod command;
pub mod error;
pub mod manager;
pub mod selection;
pub mod target;
pub mod config;
pub mod install;
pub mod session;
pub mod release;
pub mod tools;
