//! Turns a catalog of declarative tool definitions into a table of callable
//! tools. Each tool is an HTTP call or a local command whose URL, body,
//! headers, command line and standard input are templates filled in from the
//! caller's JSON input.
//!
//! The library holds everything that can be decided without touching the
//! network or the operating system: escaping and compiling the templates,
//! rendering them into a request or a command line, classifying what came
//! back, and building the dispatch table. Sending the request and running the
//! process are left to the caller, which hands the outcome back as plain data.

pub mod command;
pub mod config;
pub mod engine;
pub mod http;
pub mod json;
pub mod outcome;
pub mod sanitize;
pub mod slots;
pub mod template;
pub mod text;
