//! HTTP types: status codes, headers, cookies, requests and responses.

pub mod cookie;
pub mod cors;
pub mod date;
pub mod header_map;
pub mod headers;
pub mod lines;
pub mod method;
pub mod mime;
pub mod proxy;
pub mod request;
pub mod response;
pub mod status;
