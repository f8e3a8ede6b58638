//! Errors of the operating system.

use std::io::ErrorKind;

use vstd::prelude::*;

verus! {

/// `std::io::ErrorKind`: what sort of error the operating system reported.
#[verifier::external_type_specification]
#[verifier::external_body]
pub struct ExErrorKind(ErrorKind);

/// An error of the operating system: its kind and what it says.
#[derive(Debug)]
pub struct IoError {
    kind: ErrorKind,
    message: String,
}

/// An error of the operating system with its text as a sequence.
pub struct IoErrorView {
    pub kind: ErrorKind,
    pub message: Seq<char>,
}

impl View for IoError {
    type V = IoErrorView;

    closed spec fn view(&self) -> IoErrorView {
        IoErrorView { kind: self.kind, message: self.message@ }
    }
}

impl IoError {
    /// An error of this kind that says this.
    pub fn new(kind: ErrorKind, message: String) -> (r: Self)
        ensures
            r@ == (IoErrorView { kind, message: message@ }),
    {
        IoError { kind, message }
    }

    /// The kind of the error.
    pub fn kind(&self) -> (r: ErrorKind)
        ensures
            r == self@.kind,
    {
        self.kind
    }

    /// What the error says.
    pub fn to_string(&self) -> (r: String)
        ensures
            r@ == self@.message,
    {
        self.message.clone()
    }
}

} // verus!
