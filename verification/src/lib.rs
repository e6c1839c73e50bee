//! The decisions of a proxy that runs at the edge of a network: a client opens a websocket to it,
//! and its traffic goes out from there, straight to a destination or by another proxy.
//!
//! What is read and sent happens elsewhere; here stands what is made of it:
//!
//! - [`config`]: how proxies are written down, and which of a pool a client gets;
//! - [`tunnel`]: what a request for a tunnel asks, and the proxy that it is given;
//! - [`stream`]: the client's websocket as a stream of bytes;
//! - [`outbound`]: the order in which a destination and a proxy are tried;
//! - [`socks5`] and [`http_connect`]: how a proxy is asked for a destination;
//! - [`stats`]: the traffic counters;
//! - [`link`]: the links by which clients set themselves up.
//!
//! The other modules hold texts, numbers and the calls into other crates.

pub mod base64_text;
pub mod byte_buffer;
pub mod config;
pub mod http_connect;
pub mod ip_text;
pub mod json_text;
pub mod link;
pub mod outbound;
pub mod socks5;
pub mod stats;
pub mod stream;
pub mod text;
pub mod tunnel;
pub mod url_text;
pub mod utf8_text;
pub mod uuid_text;
