//! Commonly used middleware.

pub mod cors;

pub use cors::{
    origin_verdict, Cors, CorsEndpoint, CorsHeader, CorsRequest, CorsVerdict, FnPredicate,
    NoPredicate, OriginPredicate,
};
