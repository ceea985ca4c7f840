//! Building blocks of a web server whose behaviour is proved: a layer that
//! merges several listening sockets into one stream of connections, the
//! CORS middleware, and the parameter types of the OpenAPI layer.

pub mod http;
pub mod middleware;
pub mod openapi;
pub mod listener;
