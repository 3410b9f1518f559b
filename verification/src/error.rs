//! The ways an operation on the graph can fail.

use crate::shape::{dims_text, extents, text_of};
use arrayfire::Dim4;
use vstd::prelude::*;
use vstd::string::StringExecFns;

verus! {

/// The namespace in which a name was looked up.
#[derive(Clone, Copy, Debug, PartialEq, Eq, Structural)]
pub enum Place {
    InPort,
    OutPort,
    Input,
    Output,
    Component,
    Submodule,
}

impl Place {
    /// How the namespace is called in a message.
    pub open spec fn text(self) -> Seq<char> {
        match self {
            Place::InPort => "In port"@,
            Place::OutPort => "Out port"@,
            Place::Input => "Input"@,
            Place::Output => "Output"@,
            Place::Component => "Component"@,
            Place::Submodule => "Submodule"@,
        }
    }

    /// How the namespace is called in a message.
    pub fn label(self) -> (s: &'static str)
        ensures
            s@ == self.text(),
    {
        match self {
            Place::InPort => "In port",
            Place::OutPort => "Out port",
            Place::Input => "Input",
            Place::Output => "Output",
            Place::Component => "Component",
            Place::Submodule => "Submodule",
        }
    }
}

/// A failed operation. Every failure leaves the state as it was.
#[derive(Debug)]
pub enum Error {
    /// No entry is registered under `key` in the namespace `place`.
    NotFound { key: String, place: Place },
    /// A port of shape `expected` was offered something of shape `actual`.
    ShapeMismatch { expected: Dim4, actual: Dim4 },
    /// An out-port named `key` has no staged output to publish.
    IncompleteResult { key: String },
}

/// The mathematical content of an [`Error`].
pub enum ErrorView {
    NotFound { key: Seq<char>, place: Place },
    ShapeMismatch { expected: Seq<u64>, actual: Seq<u64> },
    IncompleteResult { key: Seq<char> },
}

impl ErrorView {
    /// The message of the error, for a person to read.
    pub open spec fn text(self) -> Seq<char> {
        match self {
            ErrorView::NotFound { key, place } => place.text() + " `"@ + key
                + "` does not exist"@,
            ErrorView::ShapeMismatch { expected, actual } =>
                "Mismatched port dimensions (expected: "@ + dims_text(expected) + " actual: "@
                    + dims_text(actual) + ")"@,
            ErrorView::IncompleteResult { key } => "Output for key "@ + key + " does not exist"@,
        }
    }
}

impl View for Error {
    type V = ErrorView;

    open spec fn view(&self) -> ErrorView {
        match *self {
            Error::NotFound { key, place } => ErrorView::NotFound { key: key@, place },
            Error::ShapeMismatch { expected, actual } => ErrorView::ShapeMismatch {
                expected: extents(expected),
                actual: extents(actual),
            },
            Error::IncompleteResult { key } => ErrorView::IncompleteResult { key: key@ },
        }
    }
}

impl Error {
    /// The error for a name that is absent from a namespace.
    pub fn not_found(key: &str, place: Place) -> (e: Error)
        ensures
            e@ == (ErrorView::NotFound { key: key@, place }),
    {
        Error::NotFound { key: key.to_owned(), place }
    }

    /// The error for an out-port without a staged output.
    pub fn incomplete(key: &str) -> (e: Error)
        ensures
            e@ == (ErrorView::IncompleteResult { key: key@ }),
    {
        Error::IncompleteResult { key: key.to_owned() }
    }

    /// The error for two shapes that should have been equal.
    pub fn shape_mismatch(expected: Dim4, actual: Dim4) -> (e: Error)
        ensures
            e@ == (ErrorView::ShapeMismatch {
                expected: extents(expected),
                actual: extents(actual),
            }),
    {
        Error::ShapeMismatch { expected, actual }
    }

    /// The message of the error, for a person to read.
    pub fn message(&self) -> (s: String)
        ensures
            s@ == self@.text(),
    {
        match self {
            Error::NotFound { key, place } => {
                let mut s: String = place.label().to_owned();
                s.append(" `");
                s.append(key.as_str());
                s.append("` does not exist");
                s
            },
            Error::ShapeMismatch { expected, actual } => {
                let mut s: String = "Mismatched port dimensions (expected: ".to_owned();
                s.append(text_of(expected).as_str());
                s.append(" actual: ");
                s.append(text_of(actual).as_str());
                s.append(")");
                s
            },
            Error::IncompleteResult { key } => {
                let mut s: String = "Output for key ".to_owned();
                s.append(key.as_str());
                s.append(" does not exist");
                s
            },
        }
    }

    /// Whether a name was absent.
    pub fn is_not_found(&self) -> (b: bool)
        ensures
            b == (self@ is NotFound),
    {
        match self {
            Error::NotFound { .. } => true,
            _ => false,
        }
    }

    /// Whether two shapes differed.
    pub fn is_shape_mismatch(&self) -> (b: bool)
        ensures
            b == (self@ is ShapeMismatch),
    {
        match self {
            Error::ShapeMismatch { .. } => true,
            _ => false,
        }
    }

    /// Whether an out-port was left without a staged output.
    pub fn is_incomplete_result(&self) -> (b: bool)
        ensures
            b == (self@ is IncompleteResult),
    {
        match self {
            Error::IncompleteResult { .. } => true,
            _ => false,
        }
    }
}

} // verus!
