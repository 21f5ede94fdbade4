//! Stream adapters that run their work on the thread pool.

pub mod order;
pub mod rayon_map;

pub use rayon_map::RayonMap;
