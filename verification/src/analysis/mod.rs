//! Analyzers and the types they work on.

pub mod analyzer;
pub mod connection_redirect_downgrade;
pub mod diagnostic;
pub mod harness;
pub mod imsi_exposure_classifier;
pub mod imsi_exposure_ratio;
pub mod imsi_requested;
pub mod information_element;
pub mod nas_null_cipher;
pub mod null_cipher;
pub mod sliding_window;
