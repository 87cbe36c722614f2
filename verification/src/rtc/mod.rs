//! WebRTC: the API object, the connection's ICE servers, and signaling.
pub mod api;
pub mod connection;
pub mod signaling;

pub use api::build_api;
pub use connection::ice_server_entries;
pub use signaling::handle_message;
