//! Core of a small plotting service: a generator of display payloads, a
//! table of static assets, the routing decision for each request and the
//! state machine of a streaming session.
pub mod assets;
pub mod dispatch;
pub mod geometry;
pub mod session;
