//! A verified entity store and domain model for a tile-grid map editor.
//!
//! Games own a map, a cursor and character placements. Tables of rows are
//! held in memory; every operation states exactly which rows it reads,
//! which it rewrites, and which failure it reports.

pub mod db;
pub mod extent;
pub mod html;
pub mod http;
pub mod models;
pub mod text;
