//! What can go wrong while handling audio.

use vstd::prelude::*;

use crate::text::{push_all, push_number};

verus! {

/// A failure of the media layer.
#[derive(Debug, PartialEq, Eq)]
pub enum MediaError {
    /// The operating system refused an operation; the text is its message.
    Io(String),
    /// A packet ends before its RTP header does.
    RtpTooShort,
    /// A packet carries an RTP version other than two.
    RtpBadVersion(u8),
    /// The audio server refused an operation; the text is its message.
    PipeWire(String),
}

impl MediaError {
    /// The message shown for the error.
    pub open spec fn message(self) -> Seq<char> {
        match self {
            MediaError::Io(e) => e@,
            MediaError::RtpTooShort => "rtp packet too short"@,
            MediaError::RtpBadVersion(v) => "unsupported rtp version "@ + crate::text::decimal(
                v as nat,
            ),
            MediaError::PipeWire(e) => "pipewire error: "@ + e@,
        }
    }

    /// The message shown for the error.
    pub fn to_string(&self) -> (s: String)
        ensures
            s@ == self.message(),
    {
        let mut s = String::new();
        match self {
            MediaError::Io(e) => {
                push_all(&mut s, e.as_str());
            },
            MediaError::RtpTooShort => {
                push_all(&mut s, "rtp packet too short");
            },
            MediaError::RtpBadVersion(v) => {
                push_all(&mut s, "unsupported rtp version ");
                push_number(&mut s, *v as u64);
            },
            MediaError::PipeWire(e) => {
                push_all(&mut s, "pipewire error: ");
                push_all(&mut s, e.as_str());
            },
        }
        assert(s@ =~= self.message());
        s
    }
}

} // verus!
