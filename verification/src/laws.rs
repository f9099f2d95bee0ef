//! What holds of the library as a whole.
pub mod activity;
pub mod basics;
pub mod counts;
pub mod fields;
pub mod heartbeat;
pub mod requests;
pub mod summary;
pub mod tracking;
pub mod usage;
pub mod views;
