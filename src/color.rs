//! Named colors of the renderer.
use vstd::prelude::*;

verus! {

/// A color that every channel of is either full or off.
#[derive(Debug, Clone, Copy, PartialEq, Eq, Structural)]
pub enum CommonColor {
    Red,
    Green,
    Blue,
    Black,
    White,
}

impl CommonColor {
    /// Which of the red, green and blue channels are full.
    pub open spec fn channels_spec(self) -> (bool, bool, bool) {
        match self {
            CommonColor::Red => (true, false, false),
            CommonColor::Green => (false, true, false),
            CommonColor::Blue => (false, false, true),
            CommonColor::Black => (false, false, false),
            CommonColor::White => (true, true, true),
        }
    }

    /// Which of the red, green and blue channels are full.
    pub fn channels(&self) -> (r: (bool, bool, bool))
        ensures
            r == self.channels_spec(),
    {
        match *self {
            CommonColor::Red => (true, false, false),
            CommonColor::Green => (false, true, false),
            CommonColor::Blue => (false, false, true),
            CommonColor::Black => (false, false, false),
            CommonColor::White => (true, true, true),
        }
    }
}

} // verus!
