//! What the map renderer decides before it talks to the GPU.

pub mod context;
pub mod map_pipeline;
pub mod tile_cache;
pub mod viewport;
