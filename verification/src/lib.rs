//! The decisions of a multi-client WebRTC camera server.
//!
//! One camera is captured and encoded once, and the encoded frames are
//! broadcast to every connected browser. This library holds what the server
//! decides on the way, each decision with its contract:
//!
//! - [`config`] and [`types`]: settings and ICE servers from the environment;
//! - [`capture`] and [`encoder`]: the media pipelines, frame timing, keyframes;
//! - [`slots`], [`registry`] and [`peer`]: the peer limit, the registered
//!   connections and the life of one peer;
//! - [`signal`] and [`rtc`]: the signaling wire format, what is done about each
//!   message, and the WebRTC API object;
//! - [`writer`], [`routes`] and [`metrics`]: a peer's frame writer, the HTTP
//!   decisions and the exported metrics.
//!
//! Sockets, threads and the media pipelines themselves are the application's:
//! it reports events and performs the actions that it is given.
pub mod capture;
pub mod channels;
pub mod config;
pub mod encoder;
pub mod json;
pub mod metrics;
pub mod peer;
pub mod registry;
pub mod routes;
pub mod rtc;
pub mod signal;
pub mod slots;
pub mod text;
pub mod types;
pub mod writer;
