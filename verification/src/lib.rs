//! Core of an HTTP/2 load generator: values and variables, the function
//! library, the script engine, scenario templating and response checks,
//! run-parameter derivation and the chain state machine, all with proved
//! contracts.

pub mod config;
pub mod error;
pub mod function;
pub mod http_api;
pub mod json;
pub mod number;
pub mod runner;
pub mod scenario;
pub mod script;
pub mod scripting;
pub mod stats;
pub mod store;
pub mod template;
pub mod text;
pub mod variable;
