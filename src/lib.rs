//! Userspace driver logic for an RGB-backlit gaming keyboard: key catalog,
//! wire encoding of color commands, the acknowledgement-gated control queue,
//! the input-report parsers and the decisions of the event loop.
pub mod color;
pub mod control;
pub mod device;
pub mod error;
pub mod heatmap;
pub mod keyboard;
pub mod keys;
pub mod parser;
pub mod session;
