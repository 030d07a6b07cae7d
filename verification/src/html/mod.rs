//! What the pages show.

pub mod links;
pub mod util;
