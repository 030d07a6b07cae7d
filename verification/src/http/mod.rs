//! What a request is answered with.

pub mod image_serve;
pub mod laws;
pub mod routes;
pub mod util;
