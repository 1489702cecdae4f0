//! Which kind of output the display currently shows.

use vstd::prelude::*;

verus! {

/// The display's mode: the legacy text buffer, or the linear framebuffer.
#[derive(Clone, Copy, Debug, PartialEq, Eq, Structural)]
pub enum VideoMode {
    Text,
    Graphic,
}

impl VideoMode {
    pub fn is_text(&self) -> (b: bool)
        ensures
            b == (*self == VideoMode::Text),
    {
        match self {
            VideoMode::Text => true,
            VideoMode::Graphic => false,
        }
    }

    pub fn set_graphic(&mut self)
        ensures
            *final(self) == VideoMode::Graphic,
    {
        *self = VideoMode::Graphic;
    }
}

} // verus!
