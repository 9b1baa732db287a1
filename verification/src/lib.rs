//! OxideSip: the verified core of a SIP softphone.

pub mod media;
pub mod net;
pub mod random;
pub mod signaling;
pub mod text;
pub mod text_laws;
pub mod ui;
