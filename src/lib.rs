//! Frame graph and GPU resource caching for a real-time renderer.
//!
//! Passes and the virtual resources they read and write are declared per
//! frame; execution resolves the passes the output needs, maps virtual
//! resources onto long-lived pooled physical objects, derives the barriers
//! between producers and consumers, and lays out the commands to replay
//! against the graphics device.
pub mod types;
pub mod resources;
pub mod graph;
pub mod builder;
pub mod resolve;
pub mod valid;
pub mod pool;
pub mod cache;
pub mod allocate;
pub mod replay;
pub mod execute;
pub mod laws;
pub mod asset;
pub mod frame;
