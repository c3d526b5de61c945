//! Decision core of an orchestrator that runs a fleet of isolated claws.
//!
//! Every rule of the orchestrator lives here, free of I/O: the fleet manifest
//! and its overlays, the rendering of a claw's `config.toml`, the translation
//! of a claw into a container, the provisioning sequence of a tenant, the
//! rotation of bearers and the roll-up of costs. The program around this crate
//! reads files, talks to services and carries out what is decided here.

pub mod api;
pub mod base64_text;
pub mod bearer;
pub mod bearer_rotation;
pub mod calendar;
pub mod clock;
pub mod config;
pub mod cost_poller;
pub mod document;
pub mod driver;
pub mod failure;
pub mod keymap;
pub mod manifest;
pub mod paths;
pub mod provision;
pub mod proxy;
pub mod render;
pub mod text;
pub mod web;
pub mod wire;
