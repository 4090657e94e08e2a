//! Verified core of the WolfCode lesson tools.

pub mod auth;
pub mod bff;
pub mod events;
pub mod files;
pub mod json;
pub mod outline;
pub mod panel;
pub mod pytest;
pub mod runner;
pub mod submit;
pub mod telemetry;
pub mod text;
pub mod tutor;
pub mod urls;
pub mod view;
