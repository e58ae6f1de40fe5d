//! The daemon's front ends: who may speak to it, and what each request line
//! or HTTP request leads to.

pub mod auth;
pub mod handlers;
pub mod uds;
