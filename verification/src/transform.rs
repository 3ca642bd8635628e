//! The transform chain: resize, grayscale, sharpen, contrast, in that fixed
//! order. Each stage is a pure function from one grid to the next; the spec
//! functions here are the mathematical model each stage is proved against.

use vstd::arithmetic::div_mod::*;
use vstd::arithmetic::mul::*;
use vstd::prelude::*;

use crate::grid::{LumaGrid, PixelGrid};

verus! {

/// The resize target for one dimension: `round(src * scale)`, with the scale
/// in thousandths and the rounding half-up.
pub open spec fn target_dim(src: int, scale_milli: int) -> int {
    (src * scale_milli + 500) / 1000
}

/// The flat RGB bytes of the nearest-neighbour resize of `g` to `tw` x `th`:
/// target pixel `(x, y)` copies source pixel `(x * width / tw, y * height / th)`,
/// so at integral scales glyph boundaries align with source pixel boundaries.
pub open spec fn resize_spec(g: PixelGrid, tw: int, th: int) -> Seq<u8> {
    Seq::new((3 * tw * th) as nat, |k: int| {
        let p = k / 3;
        let c = k % 3;
        let x = p % tw;
        let y = p / tw;
        g.chan(x * g.width / tw, y * g.height / th, c)
    })
}

/// The luminance of one RGB sample: the Rec. 709 weighting
/// `(2126 R + 7152 G + 722 B) / 10000`, in integer arithmetic. The weights
/// sum to 10000, so a grey sample keeps its value exactly.
pub open spec fn luma_value(r: u8, g: u8, b: u8) -> u8 {
    ((2126 * r + 7152 * g + 722 * b) / 10000) as u8
}

/// The luminance bytes of `n` RGB pixels laid out flat, three bytes each.
pub open spec fn grayscale_spec(data: Seq<u8>, n: int) -> Seq<u8> {
    Seq::new(n as nat, |p: int| luma_value(data[3 * p], data[3 * p + 1], data[3 * p + 2]))
}

/// In one dimension, `x * n / d` stays a valid index below `n`.
pub(crate) proof fn lemma_scale_index_bound(x: int, n: int, d: int)
    requires
        0 <= x < d,
        1 <= n,
    ensures
        0 <= x * n / d < n,
{
    assert(0 <= x * n / d < n) by (nonlinear_arith)
        requires
            0 <= x < d,
            1 <= n,
    ;
}

/// A product of two values below `2^32` stays below `2^64`.
pub(crate) proof fn lemma_mul_fits_u64(a: int, b: int)
    requires
        0 <= a <= 0xFFFF_FFFF,
        0 <= b <= 0xFFFF_FFFF,
    ensures
        0 <= a * b <= 0xFFFF_FFFF * 0xFFFF_FFFF,
{
    assert(0 <= a * b <= 0xFFFF_FFFF * 0xFFFF_FFFF) by (nonlinear_arith)
        requires
            0 <= a <= 0xFFFF_FFFF,
            0 <= b <= 0xFFFF_FFFF,
    ;
}

/// Decodes the row-major pixel index `y * w + x` back into its coordinates.
pub(crate) proof fn lemma_flat_index(w: int, x: int, y: int)
    requires
        0 <= x < w,
        0 <= y,
    ensures
        (y * w + x) / w == y,
        (y * w + x) % w == x,
{
    lemma_fundamental_div_mod_converse(y * w + x, w, y, x);
}

/// A row-major pixel index stays below the pixel count.
pub(crate) proof fn lemma_pixel_index(w: int, h: int, x: int, y: int)
    requires
        0 <= x < w,
        0 <= y < h,
    ensures
        0 <= y * w + x,
        y * w + x < w * h,
{
    assert(0 <= y * w + x && y * w + x < w * h) by (nonlinear_arith)
        requires
            0 <= x < w,
            0 <= y < h,
    ;
}

/// Nearest-neighbour resize of an RGB grid to `tw` x `th`.
#[verifier::loop_isolation(false)]
pub fn resize_nearest(g: &PixelGrid, tw: usize, th: usize) -> (r: PixelGrid)
    requires
        g.wf(),
        g.width >= 1,
        g.height >= 1,
        1 <= tw <= 0xFFFF_FFFF,
        1 <= th <= 0xFFFF_FFFF,
        3 * (tw as int) * (th as int) <= usize::MAX,
    ensures
        r.wf(),
        r.width == tw,
        r.height == th,
        r.data@ == resize_spec(*g, tw as int, th as int),
{
    let ghost s = resize_spec(*g, tw as int, th as int);
    proof {
        lemma_pixel_index(tw as int, th as int, tw - 1, th - 1);
    }
    let mut out: Vec<u8> = Vec::new();
    let mut y: usize = 0;
    while y < th
        invariant
            0 <= y <= th,
            out@.len() == 3 * ((y as int) * (tw as int)),
            out@ == s.take(out@.len() as int),
        decreases th - y,
    {
        let mut x: usize = 0;
        proof {
            lemma_mul_inequality(y as int, th as int, tw as int);
        }
        while x < tw
            invariant
                0 <= y < th,
                0 <= x <= tw,
                out@.len() == 3 * ((y as int) * (tw as int) + x as int),
                out@ == s.take(out@.len() as int),
            decreases tw - x,
        {
            proof {
                lemma_pixel_index(tw as int, th as int, x as int, y as int);
                lemma_scale_index_bound(x as int, g.width as int, tw as int);
                lemma_scale_index_bound(y as int, g.height as int, th as int);
                lemma_mul_fits_u64(x as int, g.width as int);
                lemma_mul_fits_u64(y as int, g.height as int);
            }
            let sx: usize = (((x as u64) * (g.width as u64)) / (tw as u64)) as usize;
            let sy: usize = (((y as u64) * (g.height as u64)) / (th as u64)) as usize;
            let glen: usize = g.data.len();
            proof {
                lemma_pixel_index(g.width as int, g.height as int, sx as int, sy as int);
                assert(3 * ((g.width as int) * (g.height as int)) == 3 * (g.width as int) * (
                g.height as int)) by (nonlinear_arith);
                assert((sy as int) * (g.width as int) + (sx as int) < glen as int);
            }
            let base: usize = 3 * (sy * g.width + sx);
            let ghost p = (y as int) * (tw as int) + x as int;
            proof {
                assert(3 * ((tw as int) * (th as int)) == 3 * (tw as int) * (th as int))
                    by (nonlinear_arith);
                lemma_flat_index(tw as int, x as int, y as int);
                lemma_fundamental_div_mod_converse(3 * p, 3, p, 0);
                lemma_fundamental_div_mod_converse(3 * p + 1, 3, p, 1);
                lemma_fundamental_div_mod_converse(3 * p + 2, 3, p, 2);
            }
            out.push(g.data[base]);
            out.push(g.data[base + 1]);
            out.push(g.data[base + 2]);
            x = x + 1;
            assert(out@ =~= s.take(out@.len() as int));
        }
        y = y + 1;
        proof {
            assert(((y - 1) as int) * (tw as int) + tw as int == (y as int) * (tw as int))
                by (nonlinear_arith);
        }
    }
    proof {
        assert(3 * ((th as int) * (tw as int)) == 3 * (tw as int) * (th as int))
            by (nonlinear_arith);
        assert(out@ =~= s);
    }
    let r = PixelGrid { width: tw, height: th, data: out };
    r
}

/// Reduces an RGB grid to its luminance grid using the fixed Rec. 709
/// channel weighting.
#[verifier::loop_isolation(false)]
pub fn to_grayscale(g: &PixelGrid) -> (r: LumaGrid)
    requires
        g.wf(),
    ensures
        r.wf(),
        r.width == g.width,
        r.height == g.height,
        r.data@ == grayscale_spec(g.data@, (g.width as int) * (g.height as int)),
{
    let ghost n = (g.width as int) * (g.height as int);
    let ghost s = grayscale_spec(g.data@, n);
    let count: usize = g.data.len() / 3;
    proof {
        assert(g.data@.len() == n * 3) by (nonlinear_arith)
            requires
                g.data@.len() == 3 * (g.width as int) * (g.height as int),
                n == (g.width as int) * (g.height as int),
        ;
        lemma_fundamental_div_mod_converse(g.data@.len() as int, 3, n, 0);
    }
    let mut out: Vec<u8> = Vec::new();
    let mut p: usize = 0;
    while p < count
        invariant
            0 <= p <= count,
            out@.len() == p,
            out@ == s.take(p as int),
        decreases count - p,
    {
        let rv: u32 = g.data[3 * p] as u32;
        let gv: u32 = g.data[3 * p + 1] as u32;
        let bv: u32 = g.data[3 * p + 2] as u32;
        let lum: u32 = (2126 * rv + 7152 * gv + 722 * bv) / 10000;
        out.push(lum as u8);
        p = p + 1;
        assert(out@ =~= s.take(p as int));
    }
    proof {
        assert(out@ =~= s);
    }
    LumaGrid { width: g.width, height: g.height, data: out }
}

/// Clamps a signed luminance sum into the byte range.
pub open spec fn clamp_byte(v: int) -> u8 {
    if v < 0 {
        0u8
    } else if v > 255 {
        255u8
    } else {
        v as u8
    }
}

/// The sharpened luminance of the pixel at `(x, y)`: the 3x3 kernel with
/// centre weight +5, four-neighbour weight -1 and zero corners, with border
/// pixels replicating the edge (an out-of-range neighbour coordinate is
/// clamped back into the grid), clamped into the byte range.
pub open spec fn sharpen_value(data: Seq<u8>, w: int, h: int, x: int, y: int) -> u8 {
    let center = data[y * w + x] as int;
    let left = data[y * w + (if x == 0 { 0int } else { x - 1 })] as int;
    let right = data[y * w + (if x + 1 < w { x + 1 } else { x })] as int;
    let up = data[(if y == 0 { 0int } else { y - 1 }) * w + x] as int;
    let down = data[(if y + 1 < h { y + 1 } else { y }) * w + x] as int;
    clamp_byte(5 * center - left - right - up - down)
}

/// The sharpened luminance bytes of a `w` x `h` grid laid out row-major.
pub open spec fn sharpen_spec(data: Seq<u8>, w: int, h: int) -> Seq<u8> {
    Seq::new((w * h) as nat, |p: int| sharpen_value(data, w, h, p % w, p / w))
}

/// Applies the fixed sharpen kernel to a luminance grid.
#[verifier::loop_isolation(false)]
pub fn sharpen(l: &LumaGrid) -> (r: LumaGrid)
    requires
        l.wf(),
        l.width >= 1,
        l.height >= 1,
    ensures
        r.wf(),
        r.width == l.width,
        r.height == l.height,
        r.data@ == sharpen_spec(l.data@, l.width as int, l.height as int),
{
    let w = l.width;
    let h = l.height;
    let ghost s = sharpen_spec(l.data@, w as int, h as int);
    let mut out: Vec<u8> = Vec::new();
    let mut y: usize = 0;
    while y < h
        invariant
            0 <= y <= h,
            out@.len() == (y as int) * (w as int),
            out@ == s.take(out@.len() as int),
        decreases h - y,
    {
        let mut x: usize = 0;
        while x < w
            invariant
                0 <= y < h,
                0 <= x <= w,
                out@.len() == (y as int) * (w as int) + x as int,
                out@ == s.take(out@.len() as int),
            decreases w - x,
        {
            let cx0: usize = if x == 0 {
                0
            } else {
                x - 1
            };
            let cx1: usize = if x + 1 < w {
                x + 1
            } else {
                x
            };
            let cy0: usize = if y == 0 {
                0
            } else {
                y - 1
            };
            let cy1: usize = if y + 1 < h {
                y + 1
            } else {
                y
            };
            let llen: usize = l.data.len();
            proof {
                lemma_pixel_index(w as int, h as int, x as int, y as int);
                lemma_pixel_index(w as int, h as int, cx0 as int, y as int);
                lemma_pixel_index(w as int, h as int, cx1 as int, y as int);
                lemma_pixel_index(w as int, h as int, x as int, cy0 as int);
                lemma_pixel_index(w as int, h as int, x as int, cy1 as int);
                lemma_flat_index(w as int, x as int, y as int);
                assert((cy1 as int) * (w as int) + x < llen as int);
            }
            let center: i32 = l.data[y * w + x] as i32;
            let left: i32 = l.data[y * w + cx0] as i32;
            let right: i32 = l.data[y * w + cx1] as i32;
            let up: i32 = l.data[cy0 * w + x] as i32;
            let down: i32 = l.data[cy1 * w + x] as i32;
            let val: i32 = 5 * center - left - right - up - down;
            let pixel: u8 = if val < 0 {
                0
            } else if val > 255 {
                255
            } else {
                val as u8
            };
            out.push(pixel);
            x = x + 1;
            assert(out@ =~= s.take(out@.len() as int));
        }
        y = y + 1;
        proof {
            assert(((y - 1) as int) * (w as int) + w as int == (y as int) * (w as int))
                by (nonlinear_arith);
        }
    }
    proof {
        assert((h as int) * (w as int) == (w as int) * (h as int)) by (nonlinear_arith);
        assert(out@ =~= s);
    }
    LumaGrid { width: w, height: h, data: out }
}

/// The contrast curve's scaled factor: with the adjustment `c` in
/// thousandths, the factor is `((c / 1000 + 100) / 100)^2`, held here as a
/// numerator over `10^10`. The adjustment is clamped below at -100 (factor
/// zero) and the numerator is capped once the factor saturates every
/// luminance value, which keeps the arithmetic in range without changing any
/// pixel. The factor grows with `c` and is exactly one at `c == 0`.
pub open spec fn contrast_factor_numerator(c: int) -> int {
    let ce = if c < -100000 {
        -100000int
    } else if c > 3000000 {
        3000000int
    } else {
        c
    };
    let sq = (ce + 100000) * (ce + 100000);
    if sq > 5120000000000 {
        5120000000000int
    } else {
        sq
    }
}

/// One luminance value after the linear contrast adjustment
/// `clamp((l - 128) * factor + 128, 0, 255)`, with the division truncating
/// the scaled offset toward zero.
pub open spec fn contrast_value(l: u8, c: int) -> u8 {
    let num = contrast_factor_numerator(c);
    if l >= 128 {
        let add = (l - 128) * num / 10000000000;
        if add >= 127 {
            255u8
        } else {
            (128 + add) as u8
        }
    } else {
        let sub = (128 - l) * num / 10000000000;
        if sub >= 128 {
            0u8
        } else {
            (128 - sub) as u8
        }
    }
}

/// Every luminance byte after the same contrast adjustment.
pub open spec fn contrast_spec(data: Seq<u8>, c: int) -> Seq<u8> {
    Seq::new(data.len(), |p: int| contrast_value(data[p], c))
}

/// A contrast adjustment of zero is the identity on every luminance value.
pub proof fn lemma_contrast_identity(l: u8)
    ensures
        contrast_value(l, 0) == l,
{
    assert(contrast_factor_numerator(0) == 10000000000);
    if l >= 128 {
        lemma_div_by_multiple((l - 128) as int, 10000000000);
    } else {
        lemma_div_by_multiple((128 - l) as int, 10000000000);
    }
}

/// Adjusts the contrast of a luminance grid; an adjustment of zero leaves
/// every pixel unchanged.
#[verifier::loop_isolation(false)]
pub fn adjust_contrast(l: &LumaGrid, contrast_milli: i64) -> (r: LumaGrid)
    requires
        l.wf(),
    ensures
        r.wf(),
        r.width == l.width,
        r.height == l.height,
        r.data@ == contrast_spec(l.data@, contrast_milli as int),
        contrast_milli == 0 ==> r.data@ == l.data@,
{
    let ce: i64 = if contrast_milli < -100000 {
        -100000
    } else if contrast_milli > 3000000 {
        3000000
    } else {
        contrast_milli
    };
    let base: u64 = (ce + 100000) as u64;
    proof {
        assert(base * base <= 3100000 * 3100000) by (nonlinear_arith)
            requires
                0 <= base <= 3100000,
        ;
    }
    let sq: u64 = base * base;
    let num: u64 = if sq > 5120000000000 {
        5120000000000
    } else {
        sq
    };
    let ghost c = contrast_milli as int;
    let ghost s = contrast_spec(l.data@, c);
    let count: usize = l.data.len();
    let mut out: Vec<u8> = Vec::new();
    let mut p: usize = 0;
    while p < count
        invariant
            0 <= p <= count,
            out@.len() == p,
            out@ == s.take(p as int),
        decreases count - p,
    {
        let v: u8 = l.data[p];
        let pixel: u8 = if v >= 128 {
            let d: u64 = (v - 128) as u64;
            proof {
                assert(d * num <= 127 * 5120000000000) by (nonlinear_arith)
                    requires
                        0 <= d <= 127,
                        0 <= num <= 5120000000000,
                ;
            }
            let add: u64 = d * num / 10000000000;
            if add >= 127 {
                255
            } else {
                (128 + add as u8)
            }
        } else {
            let d: u64 = (128 - v) as u64;
            proof {
                assert(d * num <= 128 * 5120000000000) by (nonlinear_arith)
                    requires
                        0 <= d <= 128,
                        0 <= num <= 5120000000000,
                ;
            }
            let sub: u64 = d * num / 10000000000;
            if sub >= 128 {
                0
            } else {
                (128 - sub as u8)
            }
        };
        out.push(pixel);
        p = p + 1;
        assert(out@ =~= s.take(p as int));
    }
    proof {
        assert(out@ =~= s);
        if contrast_milli == 0 {
            assert forall|i: int| 0 <= i < l.data@.len() implies s[i] == l.data@[i] by {
                lemma_contrast_identity(l.data@[i]);
            }
            assert(s =~= l.data@);
        }
    }
    LumaGrid { width: l.width, height: l.height, data: out }
}

} // verus!
