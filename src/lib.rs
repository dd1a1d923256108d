//! Photo triage and editing engine: rasters, the edit pipeline, image
//! statistics, scene classification, adjustment suggestions and a bounded
//! preview cache.

pub mod raster;
pub mod jpeg;
pub mod pixel;
pub mod stats;
pub mod scene;
pub mod suggest;
pub mod text;
pub mod models;
pub mod analysis;
pub mod filters;
pub mod cache;
pub mod paths;
pub mod tone;
pub mod pipeline;
pub mod exposure;
