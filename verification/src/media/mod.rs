//! Audio: codecs, packets, streams, recordings and tones.

pub mod codec;
pub mod devices;
pub mod dtmf;
pub mod error;
pub mod laws;
pub mod playback;
pub mod receiver;
pub mod record;
pub mod reorder;
pub mod ring;
pub mod rtp;
pub mod sender;
pub mod sound_laws;
pub mod tone;
