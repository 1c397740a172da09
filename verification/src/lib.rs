//! Decision logic of a small tunnelling service: a server that hands out
//! public names for tunnels and routes traffic to them, and the client that
//! asks for a tunnel and serves the streams that arrive through it.
pub mod convert;
pub mod text;
pub mod tunnel_id;
pub mod name;
pub mod peers;
pub mod tunnel;
pub mod session;
pub mod dial;
pub mod laws;
pub mod stream;
pub mod headers;
pub mod uri;
pub mod reply;
pub mod reverse_proxy;
pub mod api;
pub mod client;
pub mod proxy;
pub mod proxy_protocol;
pub mod exchange;
pub mod reconnect;
pub mod config;
pub mod guarantees;
