//! Live subnet traffic accounting: a verified flow-statistics engine together
//! with the pure helpers around it (address-range resolution, packet header
//! decoding, table rendering).
//!
//! Time is carried as integer milliseconds and bit rates as integers, so every
//! derived quantity has an exact arithmetic definition.

pub mod assoc;
pub mod engine;
pub mod laws;
pub mod metrics;
pub mod model;
pub mod packet;
pub mod portmap;
pub mod render;
pub mod subnet;
