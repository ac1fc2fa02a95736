//! Rows about the plugin itself: how long the checks took, which failed,
//! and the plugin's version.
pub mod status;
pub mod timings;
pub mod version;
