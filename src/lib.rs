//! Edge gateway logic for an environmental-control board: the serial
//! protocol codec, the controller state, the event dispatch decisions and
//! the telemetry and authentication policies.

pub mod protocol;
pub mod settings;
pub mod controller;
pub mod auth;
pub mod telemetry;
pub mod bridge;
pub mod arduino;
pub mod text;
