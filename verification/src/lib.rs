//! Live screen stream for the Vega Virtual Device: the decisions behind
//! bringing the emulator's gRPC endpoint up, capturing frames from it, and
//! serving them over HTTP as an MJPEG stream.
pub mod bringup;
pub mod capture;
pub mod clock;
pub mod config;
pub mod discovery;
pub mod outside;
pub mod page;
pub mod poll;
pub mod server;
pub mod text;
pub mod vvd;
