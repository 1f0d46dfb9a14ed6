//! The error taxonomy shared by decoding, rendering and compositing.

use vstd::prelude::*;

verus! {

/// What went wrong, by category.
#[derive(Debug)]
pub enum ErrorKind {
    /// A required field is absent, has the wrong tagged type, or holds a
    /// malformed value.  Fatal for the one record, never for a batch.
    DecodeError(&'static str),
    /// A whole-composite failure: an empty result set after filtering, or a
    /// degenerate target rectangle.
    GeometryError(&'static str),
    /// A file could not be opened, read or written.  Raised by callers that
    /// do the actual I/O; carried here so results stay uniform.
    IoError(String),
    /// The stored color buffer holds fewer than one full map of entries.
    IncompleteBufferError,
}

/// An error of this crate; wraps the kind in a box to keep `Result`s small.
#[derive(Debug)]
pub struct Error(pub Box<ErrorKind>);

impl Error {
    /// The kind carried by this error.
    pub open spec fn spec_kind(&self) -> ErrorKind {
        *self.0
    }

    pub fn new(kind: ErrorKind) -> (r: Error)
        ensures
            r.spec_kind() == kind,
    {
        Error(Box::new(kind))
    }

    /// Builds a per-record decode error from a fixed message.
    pub fn map_item_error(message: &'static str) -> (r: Error)
        ensures
            r.spec_kind() == ErrorKind::DecodeError(message),
    {
        Error::new(ErrorKind::DecodeError(message))
    }

    /// A human-readable rendering of the error.
    pub fn message(&self) -> (r: String)
        ensures
            r@ == self.spec_message(),
    {
        match &*self.0 {
            ErrorKind::DecodeError(m) => (*m).to_owned(),
            ErrorKind::GeometryError(m) => (*m).to_owned(),
            ErrorKind::IoError(m) => m.clone(),
            ErrorKind::IncompleteBufferError => "Color buffer incomplete".to_owned(),
        }
    }

    /// What `message` returns for each kind.
    pub open spec fn spec_message(&self) -> Seq<char> {
        match self.spec_kind() {
            ErrorKind::DecodeError(m) => m@,
            ErrorKind::GeometryError(m) => m@,
            ErrorKind::IoError(m) => m@,
            ErrorKind::IncompleteBufferError => "Color buffer incomplete"@,
        }
    }
}

} // verus!
