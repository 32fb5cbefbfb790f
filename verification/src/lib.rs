//! Verified core of the pinch process supervisor: manifest model, variable
//! expansion, command construction, log buffering, layout and input handling.
#![allow(unused_imports)]

pub mod text;
pub mod vars;
pub mod lines;
pub mod schema;
pub mod shell_words;
pub mod runners;
pub mod config;
pub mod networks;
pub mod panes;
pub mod layouts;
pub mod inputs;
pub mod dashboard;
pub mod supervisor;
pub mod views;
pub mod cli;
pub mod output;
pub mod handlers;
pub mod watch;
pub mod properties;
pub mod raw_config;
