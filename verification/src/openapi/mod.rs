//! Types of the OpenAPI layer: what a parameter is parsed into, and where in
//! a request it is taken from.

pub mod derive;
pub mod param;
pub mod types;
