//! What the library keeps of an I/O failure.

use vstd::prelude::*;

verus! {

/// The kinds of I/O failure that the library tells apart.
#[derive(Clone, Copy, Debug, Eq, PartialEq, Structural)]
pub enum IoErrorKind {
    /// Nothing exists at the path.
    NotFound,
    /// Something exists at the path already.
    AlreadyExists,
    /// Any other failure.
    Other,
}

/// An I/O failure: its kind, and what the system said of it.
#[derive(Debug, Eq, PartialEq)]
pub struct IoError {
    /// The kind of failure.
    pub kind: IoErrorKind,
    /// The system's own description.
    pub message: String,
}

/// The contents of an [`IoError`].
pub struct IoErrorView {
    pub kind: IoErrorKind,
    pub message: Seq<char>,
}

impl View for IoError {
    type V = IoErrorView;

    open spec fn view(&self) -> IoErrorView {
        IoErrorView { kind: self.kind, message: self.message@ }
    }
}

/// Why a text could not be read as the JSON that was expected.
#[derive(Debug, Eq, PartialEq)]
pub enum JsonError {
    /// The text is not JSON; the parser's own description.
    Syntax(String),
    /// The text is JSON of another shape.
    Shape,
}

/// The contents of a [`JsonError`].
pub enum JsonErrorView {
    Syntax(Seq<char>),
    Shape,
}

impl View for JsonError {
    type V = JsonErrorView;

    open spec fn view(&self) -> JsonErrorView {
        match *self {
            JsonError::Syntax(message) => JsonErrorView::Syntax(message@),
            JsonError::Shape => JsonErrorView::Shape,
        }
    }
}

} // verus!
