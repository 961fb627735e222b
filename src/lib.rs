//! Resolves a URL to a short description of what it points at, bounding
//! the work spent on each remote server.
pub mod classify;
pub mod cli;
pub mod message;
pub mod outside;
pub mod resolve;
pub mod session;
