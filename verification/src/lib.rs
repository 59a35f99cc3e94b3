//! Verified core of Fang, a control center for Razer Blade laptops.
//!
//! - [`packet`]: the 91-byte USB HID feature reports understood by the
//!   embedded controller (EC), with their checksum and response validation.
pub mod packet;
pub mod api;
pub mod state;
pub mod hw;
pub mod fan;
pub mod peripherals;
pub mod daemon;
pub mod models;
pub mod text;
pub mod razer;
pub mod color;
pub mod runner;
pub mod gpu;
pub mod ddc;
pub mod power;
pub mod sensors;
pub mod display;
pub mod panel;
pub mod server;
pub mod args;
pub mod client;
pub mod socket;
