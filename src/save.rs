//! Where an edited density field is saved to.
use vstd::prelude::*;

verus! {

/// Why a field could not be saved.
#[derive(Clone, Debug)]
pub enum SaveError {
    /// No file was chosen.
    NoPathFound,
    /// Encoding or writing the image failed; the message says why.
    ImageError(String),
    /// The field cannot be read as a luma image.
    WrongImageFormat,
}

/// The file that an edited field is saved to, once one is chosen.
#[derive(Clone, Debug)]
pub struct ImageSaver {
    pub path: Option<String>,
}

impl ImageSaver {
    /// A saver with no file chosen.
    pub fn new() -> (r: ImageSaver)
        ensures
            r.path is None,
    {
        ImageSaver { path: None }
    }

    /// The chosen file; `NoPathFound` when none is.
    pub fn target(&self) -> (r: Result<&String, SaveError>)
        ensures
            self.path is Some <==> r is Ok,
            r matches Ok(p) ==> self.path == Some(*p),
            r matches Err(e) ==> e is NoPathFound,
    {
        match &self.path {
            Some(p) => Ok(p),
            None => Err(SaveError::NoPathFound),
        }
    }
}

} // verus!
