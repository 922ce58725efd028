//! A WiFi sprinkler-valve controller's logic: the configuration model, the
//! valve actuation plans, WiFi provisioning decisions, and the HTTP pages and
//! form handling of the setup and status endpoints.

pub mod config;
pub mod form;
pub mod text;
pub mod valves;
pub mod wifi;
pub mod pages;
