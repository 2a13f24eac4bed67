//! Core of a geospatial record service: a read-only store of located
//! features queried through four call patterns (unary, server-streaming,
//! client-streaming, duplex), guarded by a bearer-token check.
//!
//! The wire transport that frames, encodes and delivers the calls is an
//! external collaborator; it hands this library decoded request values and
//! header metadata, and takes back response values and a terminal status.

pub mod auth;
pub mod chat;
pub mod dispatch;
pub mod geo;
pub mod queue;
pub mod routes;
pub mod state;
pub mod status;
pub mod store;
pub mod trig;
