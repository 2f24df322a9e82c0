//! Decision logic of the terminal workstation backend: command-line parsing,
//! gateway request planning, web serving and history queries.
pub mod cli;
pub mod gateway;
pub mod history;
pub mod paths;
pub mod request;
pub mod serve;
pub mod text;
