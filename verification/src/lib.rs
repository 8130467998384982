//! Device capability ingestion and control synthesis for a gateway of
//! network-attached devices.
//!
//! A discovery pass takes the records of the devices found on the network,
//! asks each device for its capability manifest, stores the manifest in a
//! normalized relational store and derives the controls (buttons, checkboxes,
//! sliders) through which a user drives the device.

pub mod binary64;
pub mod capability;
pub mod controller;
pub mod database;
pub mod decimal;
pub mod discovery;
pub mod discovery_laws;
pub mod form;
pub mod hazards;
pub mod manifest_client;
pub mod route_label;
