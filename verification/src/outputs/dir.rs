//! Output target that saves each finished page image into a directory.
//! Encoding and writing the images is the caller's job; the library
//! contributes the file-extension bookkeeping.

use vstd::prelude::*;

verus! {

/// A directory to write one image file per page into.
#[derive(Debug, Clone)]
pub struct DirOutput {
    pub path: String,
    pub file_extension: FileExtension,
}

/// The image format for saved pages.
#[derive(Debug, Clone, PartialEq, Eq)]
pub enum FileExtension {
    Png,
}

impl FileExtension {
    /// The file-name extension for this format.
    pub fn as_extension(&self) -> (r: &str)
        ensures
            r@ == "png"@,
    {
        match self {
            Self::Png => "png",
        }
    }
}

impl Default for FileExtension {
    fn default() -> (r: Self)
        ensures
            r == FileExtension::Png,
    {
        FileExtension::Png
    }
}

/// The file extension used when a configuration does not name one.
pub fn default_file_extension() -> (r: FileExtension)
    ensures
        r == FileExtension::Png,
{
    FileExtension::Png
}

} // verus!
