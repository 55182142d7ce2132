//! Rasterization of Hénon-map trajectories: a supersampled occupancy canvas,
//! its reduction to the output resolution, and the lossless encoding of the
//! result, with the integer rules of a rendering run stated as contracts.

pub mod canvas;
pub mod config;
pub mod encode;
pub mod naming;
pub mod raster;
pub mod resample;
