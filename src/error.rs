use vstd::prelude::*;

verus! {

/// The two kinds of failure of the library.
#[derive(Debug, Clone, PartialEq, Eq)]
#[non_exhaustive]
pub enum Error {
    /// A malformed identifier, file name or front matter.
    ParseError(String),
    /// A file system condition that prevents the operation.
    OSError(String),
}

/// Result type of the library.
pub type Result<T> = std::result::Result<T, Error>;

impl Error {
    /// A readable rendering of the error.
    pub fn message(&self) -> (r: String) {
        match self {
            Error::ParseError(m) => {
                let mut r = String::from_str("parse error: ");
                r.append(m.as_str());
                r
            },
            Error::OSError(m) => {
                let mut r = String::from_str("os error: ");
                r.append(m.as_str());
                r
            },
        }
    }
}

} // verus!
