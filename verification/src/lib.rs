//! Verified core of a command-line client for the Namecheap API: request
//! building, XML response interpretation, credential resolution and the
//! record bookkeeping behind the DNS commands.

pub mod cli;
pub mod config;
pub mod domain;
pub mod models;
pub mod number;
pub mod output;
pub mod records;
pub mod request;
pub mod response;
pub mod text;
pub mod xml;
