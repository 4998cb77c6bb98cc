//! Core of a terminal browser for the connection entries of a locally running
//! connection-management service: the catalogue of targets, the navigation
//! state machine, and the decisions around authentication, session launch and
//! fuzzy filtering. Everything that touches the terminal, the network or a
//! subordinate process is left to the caller, which performs the effect the
//! machine asks for and hands the result back as an event.

pub mod app;
pub mod catalogue;
pub mod filter;
pub mod keys;
pub mod launcher;
pub mod navigation;
pub mod screen;
pub mod session;
pub mod text;
