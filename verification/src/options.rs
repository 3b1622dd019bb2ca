//! The typed options a caller supplies for one conversion.

use vstd::prelude::*;

verus! {

/// Options received from the application layer for one invocation of the
/// conversion tool. The page size and aspect ratio strings belong to the
/// tool's own vocabulary and pass through verbatim; a missing depth means
/// the tool's default governs.
#[derive(Debug)]
pub struct File2BookOptions {
    pub page_size: String,
    pub aspect_ratio: String,
    pub depth: Option<i32>,
}

/// Mathematical image of [`File2BookOptions`].
pub struct OptionsView {
    pub page_size: Seq<char>,
    pub aspect_ratio: Seq<char>,
    pub depth: Option<int>,
}

impl View for File2BookOptions {
    type V = OptionsView;

    open spec fn view(&self) -> OptionsView {
        OptionsView {
            page_size: self.page_size@,
            aspect_ratio: self.aspect_ratio@,
            depth: match self.depth {
                Some(d) => Some(d as int),
                None => None,
            },
        }
    }
}

} // verus!
