use vstd::prelude::*;
use crate::color::Color;

verus! {

/// Number of colors in the fixed palette.
pub const PALETTE_SIZE: usize = 20;

/// The fixed palette, in its tie-breaking order: the six light hues, the six
/// pure hues, the six dark hues, then white and black.
pub open spec fn palette_seq() -> Seq<Color> {
    seq![
        Color { r: 0xFF, g: 0xC0, b: 0xC0 },  // light red
        Color { r: 0xFF, g: 0xFF, b: 0xC0 },  // light yellow
        Color { r: 0xC0, g: 0xFF, b: 0xC0 },  // light green
        Color { r: 0xC0, g: 0xFF, b: 0xFF },  // light cyan
        Color { r: 0xC0, g: 0xC0, b: 0xFF },  // light blue
        Color { r: 0xFF, g: 0xC0, b: 0xFF },  // light magenta
        Color { r: 0xFF, g: 0x00, b: 0x00 },  // red
        Color { r: 0xFF, g: 0xFF, b: 0x00 },  // yellow
        Color { r: 0x00, g: 0xFF, b: 0x00 },  // green
        Color { r: 0x00, g: 0xFF, b: 0xFF },  // cyan
        Color { r: 0x00, g: 0x00, b: 0xFF },  // blue
        Color { r: 0xFF, g: 0x00, b: 0xFF },  // magenta
        Color { r: 0xC0, g: 0x00, b: 0x00 },  // dark red
        Color { r: 0xC0, g: 0xC0, b: 0x00 },  // dark yellow
        Color { r: 0x00, g: 0xC0, b: 0x00 },  // dark green
        Color { r: 0x00, g: 0xC0, b: 0xC0 },  // dark cyan
        Color { r: 0x00, g: 0x00, b: 0xC0 },  // dark blue
        Color { r: 0xC0, g: 0x00, b: 0xC0 },  // dark magenta
        Color { r: 0xFF, g: 0xFF, b: 0xFF },  // white
        Color { r: 0x00, g: 0x00, b: 0x00 },  // black
    ]
}

/// Builds the palette as a vector, in the fixed order.
pub fn palette() -> (v: Vec<Color>)
    ensures
        v@ == palette_seq(),
{
    let mut v: Vec<Color> = Vec::new();
    v.push(Color { r: 0xFF, g: 0xC0, b: 0xC0 });
    v.push(Color { r: 0xFF, g: 0xFF, b: 0xC0 });
    v.push(Color { r: 0xC0, g: 0xFF, b: 0xC0 });
    v.push(Color { r: 0xC0, g: 0xFF, b: 0xFF });
    v.push(Color { r: 0xC0, g: 0xC0, b: 0xFF });
    v.push(Color { r: 0xFF, g: 0xC0, b: 0xFF });
    v.push(Color { r: 0xFF, g: 0x00, b: 0x00 });
    v.push(Color { r: 0xFF, g: 0xFF, b: 0x00 });
    v.push(Color { r: 0x00, g: 0xFF, b: 0x00 });
    v.push(Color { r: 0x00, g: 0xFF, b: 0xFF });
    v.push(Color { r: 0x00, g: 0x00, b: 0xFF });
    v.push(Color { r: 0xFF, g: 0x00, b: 0xFF });
    v.push(Color { r: 0xC0, g: 0x00, b: 0x00 });
    v.push(Color { r: 0xC0, g: 0xC0, b: 0x00 });
    v.push(Color { r: 0x00, g: 0xC0, b: 0x00 });
    v.push(Color { r: 0x00, g: 0xC0, b: 0xC0 });
    v.push(Color { r: 0x00, g: 0x00, b: 0xC0 });
    v.push(Color { r: 0xC0, g: 0x00, b: 0xC0 });
    v.push(Color { r: 0xFF, g: 0xFF, b: 0xFF });
    v.push(Color { r: 0x00, g: 0x00, b: 0x00 });
    proof {
        assert(v@ =~= palette_seq());
    }
    v
}

} // verus!
