//! What can go wrong in signaling.

use vstd::prelude::*;

use crate::text::push_all;

verus! {

/// A failure of the signaling layer.
#[derive(Debug)]
pub enum CoreError {
    /// The SIP stack refused something; the text is its message.
    Sip(String),
    /// The operating system refused something; the text is its message.
    Io(String),
    Config(String),
    Sdp(String),
}

/// An error as a plain value.
pub enum ErrorView {
    Sip(Seq<char>),
    Io(Seq<char>),
    Config(Seq<char>),
    Sdp(Seq<char>),
}

impl View for CoreError {
    type V = ErrorView;

    open spec fn view(&self) -> ErrorView {
        match self {
            CoreError::Sip(e) => ErrorView::Sip(e@),
            CoreError::Io(e) => ErrorView::Io(e@),
            CoreError::Config(e) => ErrorView::Config(e@),
            CoreError::Sdp(e) => ErrorView::Sdp(e@),
        }
    }
}

impl ErrorView {
    /// The message shown for the error.
    pub open spec fn message(self) -> Seq<char> {
        match self {
            ErrorView::Sip(e) => e,
            ErrorView::Io(e) => e,
            ErrorView::Config(e) => "config error: "@ + e,
            ErrorView::Sdp(e) => "sdp error: "@ + e,
        }
    }
}

impl CoreError {
    /// The message shown for the error.
    pub fn to_string(&self) -> (s: String)
        ensures
            s@ == self@.message(),
    {
        let mut s = String::new();
        match self {
            CoreError::Sip(e) => {
                push_all(&mut s, e.as_str());
            },
            CoreError::Io(e) => {
                push_all(&mut s, e.as_str());
            },
            CoreError::Config(e) => {
                push_all(&mut s, "config error: ");
                push_all(&mut s, e.as_str());
            },
            CoreError::Sdp(e) => {
                push_all(&mut s, "sdp error: ");
                push_all(&mut s, e.as_str());
            },
        }
        assert(s@ =~= self@.message());
        s
    }
}

} // verus!
