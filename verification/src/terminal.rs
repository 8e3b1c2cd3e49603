//! The display surface as the editor sees it: a width and a height in
//! character cells. Querying the real terminal is the caller's business;
//! the editor reserves the bottom two lines for the status and message bars.

use vstd::prelude::*;

verus! {

/// Display dimensions in character cells.
pub struct Size {
    pub width: u16,
    pub height: u16,
}

/// The fixed rectangular surface the editor draws on.
pub struct Terminal {
    pub size: Size,
}

impl Terminal {
    /// Builds the editor's view of a terminal of the given raw dimensions.
    /// Two lines are reserved below the text area, so the stored height is
    /// the raw height less two, floored at zero.
    pub fn new(width: u16, height: u16) -> (t: Terminal)
        ensures
            t.size.width == width,
            t.size.height == if height >= 2 { (height - 2) as u16 } else { 0u16 },
    {
        let content_height: u16 = if height >= 2 {
            height - 2
        } else {
            0
        };
        Terminal { size: Size { width, height: content_height } }
    }

    pub fn size(&self) -> (s: &Size)
        ensures
            s.width == self.size.width,
            s.height == self.size.height,
    {
        &self.size
    }
}

} // verus!
