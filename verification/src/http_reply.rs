//! Answers to requests over HTTP.

use vstd::prelude::*;

verus! {

/// An answer in plain text with its status code.
pub struct HttpReply {
    pub status: u16,
    pub body: String,
}

/// An answer with its text as a sequence.
pub struct HttpView {
    pub status: u16,
    pub body: Seq<char>,
}

impl View for HttpReply {
    type V = HttpView;

    open spec fn view(&self) -> HttpView {
        HttpView { status: self.status, body: self.body@ }
    }
}

} // verus!
