//! Sprite source for local image files, identified by path.  Reading and
//! decoding the file is the caller's job.

use vstd::prelude::*;

verus! {

#[derive(Debug, Clone, PartialEq, Eq)]
pub struct PathSource {
    pub path: String,
}

} // verus!
