//! A Snapcast-compatible audio client core that turns the received music into
//! colors for a small array of lights.

pub mod audio;
pub mod client;
pub mod color;
pub mod controller;
pub mod discovery;
pub mod protocol;
pub mod spectrum;
pub mod stream;
pub mod wire;
