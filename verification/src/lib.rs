//! Core of `rmore`, a hex-dump pager in the spirit of `bmore`: parsing of the
//! command line and of screen areas, descriptions of inputs, inspection of
//! their first line, and the pager's state machine, each with its contract.

pub mod area;
pub mod cli;
pub mod config;
pub mod error;
pub mod input;
pub mod laws;
pub mod number;
pub mod options;
pub mod pager;
pub mod reader;
pub mod terminal;
pub mod text;
pub mod transform;
