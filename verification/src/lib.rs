//! Firmware rollout service of the smart gateway: the decisions that it takes.
//!
//! The service looks for firmware updates in an index file on a web server, downloads the image
//! that fits a connected device and hands it to the device service. It also keeps a registry of
//! IPSO definitions up to date. Everything that talks to the network, the file system or another
//! process is done by the program around this library; what to do next, and what to make of the
//! outcome, is decided here.

#![allow(unused_imports)]

pub mod clock;
pub mod clock_laws;
pub mod config;
pub mod config_laws;
pub mod device;
pub mod device_info;
pub mod device_info_laws;
pub mod device_laws;
pub mod exchange;
pub mod exchange_laws;
pub mod index;
pub mod index_laws;
pub mod ipc;
pub mod ipc_laws;
pub mod links;
pub mod paths;
pub mod protocol;
pub mod registry;
pub mod registry_laws;
pub mod reload;
pub mod report;
pub mod rollout;
pub mod rollout_laws;
pub mod server;
pub mod server_laws;
pub mod text;
pub mod text_laws;
