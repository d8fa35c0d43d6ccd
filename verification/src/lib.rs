//! Chains several AI agents into a pipeline that works on one task: every agent
//! receives the original task together with the outputs of all the agents before it.
//!
//! The library holds the decisions of that pipeline: configuration checks, prompt
//! assembly, the requests each provider sends and the way its replies are read,
//! and the step function that drives the pipeline. The program around it performs
//! the network calls, the subprocesses and the terminal output.
pub mod config;
pub mod json;
pub mod pipeline;
pub mod provider;
pub mod report;
pub mod text;
