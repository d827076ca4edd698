//! Pluggable key-management and crypto backends.

pub mod software_hsm;
pub mod traits;
pub mod universal;
pub mod universal_keyring;
