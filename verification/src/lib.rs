//! An interactive text-transformation console: a command parser, a fail-fast
//! transform pipeline, a fixed-width table renderer, and the two state
//! machines (console and worker) of its request/response protocol.

pub mod prompt;
pub mod text;
pub mod transformers;
pub mod worker;
