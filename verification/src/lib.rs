//! Verified core of the `dotagent` daemon and command line.

#![allow(unused_imports)]

pub mod audit;
pub mod completions;
pub mod daemon;
pub mod daily_summary;
pub mod discovery;
pub mod doctor;
pub mod gateway;
pub mod harness;
pub mod json;
pub mod local_api;
pub mod manifest;
pub mod mcp;
pub mod memory;
pub mod os_exec;
pub mod outcome;
pub mod output;
pub mod process;
pub mod status;
pub mod table;
pub mod text;
pub mod utility;
