//! Why a request could not be answered with what it asked for.
use vstd::prelude::*;
use vstd::string::*;

verus! {

/// What went wrong while a page or a file was looked up.
#[derive(Debug)]
pub enum ServeError {
    /// The file system refused; the text says how.
    Io(String),
    /// The path leads out of the directory that is served.
    OutsideRoot,
    /// The page could not be put together; the text says how.
    Page(String),
}

impl ServeError {
    /// The text that tells a client what went wrong.
    pub open spec fn text(self) -> Seq<char> {
        match self {
            ServeError::Io(reason) => reason@,
            ServeError::OutsideRoot => "Access denied: path outside root directory"@,
            ServeError::Page(reason) => reason@,
        }
    }

    /// The text that tells a client what went wrong.
    pub fn message(&self) -> (r: String)
        ensures
            r@ == self.text(),
    {
        match self {
            ServeError::Io(reason) => reason.clone(),
            ServeError::OutsideRoot => "Access denied: path outside root directory".to_string(),
            ServeError::Page(reason) => reason.clone(),
        }
    }
}

/// A client is told what the file system or the template engine said, or that the path leads out of the
/// directory.
pub proof fn law_error_tells_what_went_wrong(reason: String)
    ensures
        ServeError::Io(reason).text() == reason@,
        ServeError::Page(reason).text() == reason@,
        ServeError::OutsideRoot.text() == "Access denied: path outside root directory"@,
{
}

} // verus!
