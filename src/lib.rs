//! Capture-and-aggregation core of a desktop network monitor: frame
//! fingerprints, the frequency table they are counted in, the shared handle
//! around it, interface selection, the capture loop's decisions and the
//! delimited-text export of the table.

pub mod error;
pub mod fingerprint;
pub mod table;
pub mod interfaces;
pub mod capture;
pub mod shared;
pub mod export;
pub mod laws;

pub use interfaces::get_interfaces;
pub use shared::SonarState;
