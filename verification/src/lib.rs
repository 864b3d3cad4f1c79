//! A verified core for a small HTTP/1.1 web server: the parsing, formatting,
//! routing and encoding logic that the server runs on every connection.

pub mod fcgi;
pub mod hot_reload;
pub mod http;
pub mod monitor;
pub mod percent;
pub mod php;
pub mod route;
pub mod server;
pub mod text;
