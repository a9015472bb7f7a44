use vstd::prelude::*;
use crate::color::Color;
use crate::palette::palette_seq;
use crate::quantizer::{nearest_spec, lemma_nearest_in_palette, lemma_nearest_fixes_palette,
    Quantizer};

verus! {

/// A 2D grid of colors in row-major order.
pub struct Image {
    pub width: u32,
    pub height: u32,
    pub pixels: Vec<Color>,
}

impl Image {
    /// The pixel buffer holds exactly one color per grid cell.
    pub open spec fn wf(self) -> bool {
        self.pixels@.len() == self.width * self.height
    }
}

/// The whole-buffer quantization: every pixel replaced by its nearest palette
/// color.
pub open spec fn quantized_seq(s: Seq<Color>) -> Seq<Color> {
    s.map(|i: int, c: Color| nearest_spec(c))
}

/// A sequence of palette colors quantizes to itself.
pub proof fn lemma_quantize_fixes_palette_seq(s: Seq<Color>)
    requires
        forall|i: int| 0 <= i < s.len() ==> palette_seq().contains(#[trigger] s[i]),
    ensures
        quantized_seq(s) == s,
{
    assert forall|i: int| 0 <= i < s.len() implies quantized_seq(s)[i] == s[i] by {
        lemma_nearest_fixes_palette(s[i]);
    }
    assert(quantized_seq(s) =~= s);
}

/// Quantization is idempotent: quantizing an already-quantized buffer changes
/// nothing.
pub proof fn lemma_quantize_idempotent(s: Seq<Color>)
    ensures
        quantized_seq(quantized_seq(s)) == quantized_seq(s),
{
    assert forall|i: int|
        0 <= i < quantized_seq(s).len() implies palette_seq().contains(
        #[trigger] quantized_seq(s)[i]) by {
        lemma_nearest_in_palette(s[i]);
    }
    lemma_quantize_fixes_palette_seq(quantized_seq(s));
}

/// Replaces every pixel by its nearest palette color, in position order; the
/// cache only speeds the search up.
pub fn quantize_pixels(q: &mut Quantizer, pixels: &Vec<Color>) -> (out: Vec<Color>)
    requires
        old(q).wf(),
    ensures
        final(q).wf(),
        out@ == quantized_seq(pixels@),
        out@.len() == pixels@.len(),
        forall|i: int| 0 <= i < pixels@.len() ==> #[trigger] out@[i] == nearest_spec(pixels@[i]),
        forall|i: int| 0 <= i < out@.len() ==> palette_seq().contains(#[trigger] out@[i]),
{
    let mut out: Vec<Color> = Vec::new();
    let n = pixels.len();
    let mut i: usize = 0;
    while i < n
        invariant
            q.wf(),
            i <= n,
            n == pixels@.len(),
            out@.len() == i,
            forall|j: int| 0 <= j < i ==> #[trigger] out@[j] == nearest_spec(pixels@[j]),
            forall|j: int| 0 <= j < i ==> palette_seq().contains(#[trigger] out@[j]),
        decreases n - i,
    {
        let p = q.nearest_memo(pixels[i]);
        out.push(p);
        i = i + 1;
    }
    proof {
        assert(out@ =~= quantized_seq(pixels@));
    }
    out
}

/// Quantizes a whole image: same width, same height, and the pixel at every
/// position is the nearest palette color of the source pixel there.
pub fn quantize_image(q: &mut Quantizer, img: &Image) -> (out: Image)
    requires
        old(q).wf(),
    ensures
        final(q).wf(),
        out.width == img.width,
        out.height == img.height,
        out.pixels@ == quantized_seq(img.pixels@),
        out.pixels@.len() == img.pixels@.len(),
        forall|i: int|
            0 <= i < img.pixels@.len() ==> #[trigger] out.pixels@[i] == nearest_spec(
                img.pixels@[i],
            ),
        forall|i: int| 0 <= i < out.pixels@.len() ==> palette_seq().contains(#[trigger] out.pixels@[i]),
        img.wf() ==> out.wf(),
{
    let pixels = quantize_pixels(q, &img.pixels);
    Image { width: img.width, height: img.height, pixels }
}

/// Quantizes a raw RGB8 buffer of consecutive byte triples in place of a grid:
/// the triple at every offset is replaced by the channels of its nearest
/// palette color.
pub fn quantize_rgb_buffer(q: &mut Quantizer, buf: &Vec<u8>) -> (out: Vec<u8>)
    requires
        old(q).wf(),
        buf@.len() % 3 == 0,
    ensures
        final(q).wf(),
        out@.len() == buf@.len(),
        forall|i: int|
            0 <= i < buf@.len() && i % 3 == 0 ==> {
                let c = Color { r: buf@[i], g: buf@[i + 1], b: buf@[i + 2] };
                &&& #[trigger] out@[i] == nearest_spec(c).r
                &&& out@[i + 1] == nearest_spec(c).g
                &&& out@[i + 2] == nearest_spec(c).b
            },
{
    let mut out: Vec<u8> = Vec::new();
    let n = buf.len();
    let mut i: usize = 0;
    while i < n
        invariant
            q.wf(),
            i <= n,
            i % 3 == 0,
            n == buf@.len(),
            n % 3 == 0,
            out@.len() == i,
            forall|j: int|
                0 <= j < i && j % 3 == 0 ==> {
                    let c = Color { r: buf@[j], g: buf@[j + 1], b: buf@[j + 2] };
                    &&& #[trigger] out@[j] == nearest_spec(c).r
                    &&& out@[j + 1] == nearest_spec(c).g
                    &&& out@[j + 2] == nearest_spec(c).b
                },
        decreases n - i,
    {
        let ghost out0 = out@;
        let src = Color { r: buf[i], g: buf[i + 1], b: buf[i + 2] };
        let p = q.nearest_memo(src);
        out.push(p.r);
        out.push(p.g);
        out.push(p.b);
        proof {
            let i0 = i as int;
            assert forall|j: int|
                0 <= j < i0 + 3 && j % 3 == 0 implies {
                let c = Color { r: buf@[j], g: buf@[j + 1], b: buf@[j + 2] };
                &&& #[trigger] out@[j] == nearest_spec(c).r
                &&& out@[j + 1] == nearest_spec(c).g
                &&& out@[j + 2] == nearest_spec(c).b
            } by {
                if j < i0 {
                    assert(out@[j] == out0[j] && out@[j + 1] == out0[j + 1] && out@[j + 2] == out0[
                        j + 2]);
                } else {
                    assert(j == i0);
                    assert(out@[j] == p.r && out@[j + 1] == p.g && out@[j + 2] == p.b);
                }
            }
        }
        i = i + 3;
    }
    out
}

} // verus!
