//! Labels of the handlers behind the web and the remote-call interface.

pub mod rpc;
pub mod web;
