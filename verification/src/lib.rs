//! The logic of a terminal client and its command line companions.
pub mod app;
pub mod cli;
pub mod json;
pub mod mcp;
pub mod model;
pub mod names;
pub mod order;
pub mod screens;
pub mod strings;
pub mod term;
pub mod term_test;
pub mod text;
pub mod toast;
