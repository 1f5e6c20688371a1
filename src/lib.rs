//! Runner catalog, Steam runtime discovery and launch readiness decisions for a
//! Linux launcher of Windows-only games.
//!
//! Everything here works on plain values: reading files, listing directories,
//! reading the environment and querying game servers happen outside the
//! library, which decides what the results mean.

pub mod json;
pub mod paths;
pub mod components;
pub mod catalog;
pub mod steam;
pub mod readiness;
pub mod common;
pub mod consts;
pub mod genshin;
pub mod honkai;
pub mod star_rail;
