//! Detection of rogue cellular base stations from a modem's diagnostic stream:
//! framing of the stream, classification of the decoded signalling messages,
//! and the analyzers that turn them into severity-tagged events.

pub mod analysis;
pub mod device;
pub mod device_api;
pub mod display;
pub mod firewall;
pub mod hdlc;
pub mod installer;
pub mod meshtastic;
pub mod network;
pub mod qmdl;
pub mod session;
pub mod text;
pub mod transport;
pub mod wifi;
pub mod wpa_conf;

pub use device::Device;
pub use wpa_conf::{format_wpa_conf, ssid_from_wpa_conf};
