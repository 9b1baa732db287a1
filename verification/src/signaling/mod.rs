//! Signaling: accounts, registration, offers and answers, calls.

pub mod call_laws;
pub mod config;
pub mod description_laws;
pub mod dialog;
pub mod error;
pub mod events;
pub mod laws;
pub mod registration;
pub mod sdp;
pub mod softphone;
pub mod times;
pub mod transport;
