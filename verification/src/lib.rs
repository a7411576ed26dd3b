//! Humidity-based fan speed control for Duka/Blauberg ventilation units.
pub mod api;
pub mod auth;
pub mod automation;
pub mod clock;
pub mod comms;
pub mod protocol;
pub mod state;
pub mod text;
