//! The glyph mapper: each luminance value picks one character of a fixed
//! ordered palette, and the grid becomes a byte canvas of one glyph per
//! pixel, row-major, with a newline terminating each row.

use vstd::arithmetic::div_mod::*;
use vstd::prelude::*;

use crate::grid::LumaGrid;

verus! {

/// The fixed 70-glyph palette, ordered dense-to-sparse, as ASCII bytes:
/// `$@B%8&WM#*oahkbdpqwmZO0QLCJUYXzcvunxrjft/\|()1{}[]?-_+~<>i!lI;:,"^`'. `.
/// Low luminance maps to a dense glyph, high luminance to a sparse one.
pub open spec fn palette() -> Seq<u8> {
    seq![
        36u8, 64u8, 66u8, 37u8, 56u8, 38u8, 87u8, 77u8, 35u8, 42u8, 111u8, 97u8, 104u8, 107u8,
        98u8, 100u8, 112u8, 113u8, 119u8, 109u8, 90u8, 79u8, 48u8, 81u8, 76u8, 67u8, 74u8, 85u8,
        89u8, 88u8, 122u8, 99u8, 118u8, 117u8, 110u8, 120u8, 114u8, 106u8, 102u8, 116u8, 47u8,
        92u8, 124u8, 40u8, 41u8, 49u8, 123u8, 125u8, 91u8, 93u8, 63u8, 45u8, 95u8, 43u8, 126u8,
        60u8, 62u8, 105u8, 33u8, 108u8, 73u8, 59u8, 58u8, 44u8, 34u8, 94u8, 96u8, 39u8, 46u8,
        32u8,
    ]
}

/// The palette index of a luminance value: floor division of the byte range
/// into buckets of four, so indices 0 through 63 of the 70 glyphs are used.
pub open spec fn glyph_index(l: u8) -> int {
    l as int / 4
}

/// The glyph byte a luminance value maps to.
pub open spec fn glyph_for(l: u8) -> u8 {
    palette()[glyph_index(l)]
}

/// Every luminance value maps to an index inside the palette: the mapped
/// glyph index never leaves `[0, N - 1]` for the `N`-glyph palette.
pub proof fn lemma_palette_bounds()
    ensures
        forall|l: u8| 0 <= #[trigger] glyph_index(l) < palette().len(),
{
    assert(palette().len() == 70);
}

/// Every palette glyph is printable ASCII: above the control range and below
/// 127. In particular no glyph is the row terminator.
pub proof fn lemma_palette_ascii()
    ensures
        forall|i: int| 0 <= i < palette().len() ==> 31 < #[trigger] palette()[i] < 127,
{
    assert(forall|i: int| 0 <= i < palette().len() ==> 31 < #[trigger] palette()[i] < 127);
}

/// The palette as an executable byte vector.
pub fn palette_bytes() -> (r: Vec<u8>)
    ensures
        r@ == palette(),
{
    let bytes: [u8; 70] = [
        36, 64, 66, 37, 56, 38, 87, 77, 35, 42, 111, 97, 104, 107, 98, 100, 112, 113, 119, 109,
        90, 79, 48, 81, 76, 67, 74, 85, 89, 88, 122, 99, 118, 117, 110, 120, 114, 106, 102, 116,
        47, 92, 124, 40, 41, 49, 123, 125, 91, 93, 63, 45, 95, 43, 126, 60, 62, 105, 33, 108, 73,
        59, 58, 44, 34, 94, 96, 39, 46, 32,
    ];
    let mut out: Vec<u8> = Vec::new();
    let mut i: usize = 0;
    while i < 70
        invariant
            0 <= i <= 70,
            out@.len() == i,
            forall|j: int| 0 <= j < i ==> out@[j] == bytes@[j],
        decreases 70 - i,
    {
        out.push(bytes[i]);
        i = i + 1;
    }
    proof {
        assert(out@ =~= palette());
    }
    out
}

/// The glyph canvas of a `w` x `h` luminance grid: position `i` holds the
/// row terminator when `i` sits at the end of a row (column `w`), and
/// otherwise the glyph of the pixel at `(i % (w + 1), i / (w + 1))`. The
/// canvas length is `h * (w + 1)`.
pub open spec fn canvas_spec(data: Seq<u8>, w: int, h: int) -> Seq<u8> {
    Seq::new((h * (w + 1)) as nat, |i: int| {
        let x = i % (w + 1);
        let y = i / (w + 1);
        if x == w {
            10u8
        } else {
            glyph_for(data[y * w + x])
        }
    })
}

/// Maps a luminance grid to its glyph canvas: one glyph per pixel in
/// row-major order, one newline after each row, nothing after the last row's
/// newline.
#[verifier::loop_isolation(false)]
pub fn glyph_canvas(l: &LumaGrid) -> (r: Vec<u8>)
    requires
        l.wf(),
        l.width >= 1,
        l.height >= 1,
        (l.height as int) * (l.width as int + 1) <= usize::MAX,
    ensures
        r@ == canvas_spec(l.data@, l.width as int, l.height as int),
        r@.len() == (l.height as int) * (l.width as int + 1),
{
    let w = l.width;
    let h = l.height;
    let ghost s = canvas_spec(l.data@, w as int, h as int);
    let pal: Vec<u8> = palette_bytes();
    let mut out: Vec<u8> = Vec::new();
    let mut y: usize = 0;
    while y < h
        invariant
            0 <= y <= h,
            pal@ == palette(),
            out@.len() == (y as int) * (w as int + 1),
            out@ == s.take(out@.len() as int),
        decreases h - y,
    {
        let mut x: usize = 0;
        while x < w
            invariant
                0 <= y < h,
                0 <= x <= w,
                pal@ == palette(),
                out@.len() == (y as int) * (w as int + 1) + x as int,
                out@ == s.take(out@.len() as int),
            decreases w - x,
        {
            let llen: usize = l.data.len();
            proof {
                crate::transform::lemma_pixel_index(w as int, h as int, x as int, y as int);
                crate::transform::lemma_pixel_index(
                    w as int + 1,
                    h as int,
                    x as int,
                    y as int,
                );
                lemma_fundamental_div_mod_converse(
                    (y as int) * (w as int + 1) + x as int,
                    w as int + 1,
                    y as int,
                    x as int,
                );
            }
            let lum: u8 = l.data[y * w + x];
            let idx: usize = (lum / 4) as usize;
            out.push(pal[idx]);
            x = x + 1;
            assert(out@ =~= s.take(out@.len() as int));
        }
        proof {
            crate::transform::lemma_pixel_index(w as int + 1, h as int, w as int, y as int);
            lemma_fundamental_div_mod_converse(
                (y as int) * (w as int + 1) + w as int,
                w as int + 1,
                y as int,
                w as int,
            );
        }
        out.push(10);
        y = y + 1;
        proof {
            assert(((y - 1) as int) * (w as int + 1) + (w as int + 1) == (y as int) * (w as int
                + 1)) by (nonlinear_arith);
        }
        assert(out@ =~= s.take(out@.len() as int));
    }
    proof {
        assert(out@ =~= s);
    }
    out
}

} // verus!
