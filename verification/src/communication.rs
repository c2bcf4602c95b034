//! The links a program reads messages from.
pub mod serial;
pub mod zeromq;
