//! The engine of a job executor plugin: a process that a compute node starts
//! to run jobs in containers on its behalf.
//!
//! The library decides and the program around it acts. It holds the registry
//! of executions and moves each of them through its lifecycle as events
//! arrive ([`service`], [`record`]); captures the output of a job under byte
//! caps and hands it to any number of readers ([`output`]); decides whether
//! the node should bid for a job ([`bid`]); validates jobs ([`validate`]) and
//! reads them from their JSON payloads ([`codec`], [`json`], [`number`]);
//! names the failures of the container backend and works out how a container
//! is set up ([`docker`]); says when a failed pull is tried again
//! ([`retry`]); and answers the calls of the executor protocol from message
//! to message ([`rpc`], [`executor`], [`handshake`]).
//!
//! Every function carries a contract over a mathematical model of the data
//! it works on, and the properties that tie the functions together are
//! stated and proved beside them.

pub mod bid;
pub mod btypes;
pub mod codec;
pub mod docker;
pub mod executor;
pub mod handshake;
pub mod json;
pub mod lcg;
pub mod number;
pub mod output;
pub mod record;
pub mod retry;
pub mod rpc;
pub mod service;
pub mod text;
pub mod validate;
