//! Connection-lifecycle and reload-orchestration core of a multi-route HTTP
//! reverse proxy.
//!
//! Every decision the proxy takes is a function from a state and an event to
//! the next state and the action to perform; the surrounding program performs
//! the action (connect, send, sleep, bind, load) and reports what happened.
//!
//! - `config`: the route table and what makes it fit to be served;
//! - `target`: the address that a request is forwarded to;
//! - `forward`: one request on its way to the upstream and back;
//! - `backoff`: re-establishing the upstream link, with growing delays;
//! - `supervisor`: the life of one route's listener;
//! - `reload`: generations of supervisors and the handover between them.

pub mod backoff;
pub mod config;
pub mod forward;
pub mod reload;
pub mod supervisor;
pub mod target;
