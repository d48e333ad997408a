//! Verified core of a serial terminal: command protocol, line framing,
//! flow-control scripts, the connection registry and the worker's decisions.

pub mod assembler;
pub mod command;
pub mod display;
pub mod flow;
pub mod lines;
pub mod port;
pub mod registry;
pub mod scripts;
pub mod search;
pub mod stream;
pub mod switching;
pub mod ui;
pub mod worker;
