use vstd::prelude::*;

verus! {

/// A display pixel: three colour channels and an alpha channel, one byte each.
#[derive(Clone, Copy, Debug, PartialEq, Eq, Structural)]
pub struct Pixel {
    pub red: u8,
    pub green: u8,
    pub blue: u8,
    pub alpha: u8,
}

impl Pixel {
    /// The same colour with the alpha channel at its maximum.
    pub open spec fn opaque(self) -> Pixel {
        Pixel { red: self.red, green: self.green, blue: self.blue, alpha: 255 }
    }

    /// An opaque pixel of the given colour.
    pub fn rgb(red: u8, green: u8, blue: u8) -> (p: Pixel)
        ensures
            p == (Pixel { red, green, blue, alpha: 255 }),
    {
        Pixel { red, green, blue, alpha: 255 }
    }
}

} // verus!
