//! The two pipelines, wired together: render turns a pixel grid into a
//! container blob through the transform chain, the glyph mapper and the
//! container encoder; opening a blob is the container decoder. The laws the
//! whole chain obeys — determinism and the render/open round trip — live
//! here too.

use vstd::prelude::*;

use crate::container::{
    deflate_of, encode_container, inflate_of, lemma_ascii_bytes_utf8, open_container,
    payload_spec,
};
use crate::errors::TranscodeError;
use crate::glyph::{
    canvas_spec, glyph_canvas, glyph_for, lemma_palette_ascii, lemma_palette_bounds,
};
use crate::grid::PixelGrid;
use crate::params::{lemma_trailer_ascii, trailer_bytes, trailer_spec, TransformParameters};
use crate::source::load_pixels;
use crate::transform::{
    adjust_contrast, contrast_spec, grayscale_spec, resize_nearest, resize_spec, sharpen,
    sharpen_spec, target_dim, to_grayscale,
};

verus! {

/// The rounded target width of a render of `g` with `p`.
pub open spec fn scaled_width(g: PixelGrid, p: TransformParameters) -> int {
    target_dim(g.width as int, p.width_scale_milli as int)
}

/// The rounded target height of a render of `g` with `p`.
pub open spec fn scaled_height(g: PixelGrid, p: TransformParameters) -> int {
    target_dim(g.height as int, p.height_scale_milli as int)
}

/// The final luminance bytes of the transform chain applied to `g`: resize
/// to the rounded target, then grayscale, sharpen and contrast, in that
/// fixed order.
pub open spec fn chain_luma_spec(g: PixelGrid, p: TransformParameters) -> Seq<u8> {
    let tw = scaled_width(g, p);
    let th = scaled_height(g, p);
    let resized = resize_spec(g, tw, th);
    let gray = grayscale_spec(resized, tw * th);
    let sharp = sharpen_spec(gray, tw, th);
    contrast_spec(sharp, p.contrast_milli as int)
}

/// The decompressed payload a render of `g` with `p` produces: the glyph
/// canvas of the transformed grid, then the parameter trailer.
pub open spec fn render_payload_spec(g: PixelGrid, p: TransformParameters) -> Seq<u8> {
    payload_spec(canvas_spec(chain_luma_spec(g, p), scaled_width(g, p), scaled_height(g, p)), p)
}

/// The target dimensions are usable: at least one pixel each, and every
/// intermediate buffer fits in a memory-indexable size.
pub open spec fn dims_ok(g: PixelGrid, p: TransformParameters) -> bool {
    let tw = scaled_width(g, p);
    let th = scaled_height(g, p);
    &&& 1 <= tw <= 0xFFFF_FFFF
    &&& 1 <= th <= 0xFFFF_FFFF
    &&& 3 * tw * th <= usize::MAX
    &&& th * (tw + 1) + trailer_spec(p).len() <= usize::MAX
}

/// Computes the rounded target for one dimension: `round(src * scale)` with
/// the scale in thousandths.
fn scaled_dimension(src: usize, scale_milli: i64) -> (r: u128)
    requires
        0 <= scale_milli,
        src <= 0xFFFF_FFFF,
    ensures
        r == target_dim(src as int, scale_milli as int),
{
    proof {
        assert((src as int) * (scale_milli as int) <= 0xFFFF_FFFF * 0x7FFF_FFFF_FFFF_FFFF)
            by (nonlinear_arith)
            requires
                0 <= src <= 0xFFFF_FFFF,
                0 <= scale_milli <= 0x7FFF_FFFF_FFFF_FFFF,
        ;
    }
    ((src as u128) * (scale_milli as u128) + 500) / 1000
}

/// Renders a decoded pixel grid into a container blob: validates the scale
/// factors, runs the transform chain, maps the result to glyphs, appends the
/// trailer and compresses. Fails with `InvalidScale` exactly when a scale
/// factor is negative, and with `DegenerateDimension` exactly when a target
/// dimension rounds to zero or the buffers would not be indexable.
pub fn render(g: &PixelGrid, p: &TransformParameters) -> (r: Result<Vec<u8>, TranscodeError>)
    requires
        g.wf(),
    ensures
        r is Ok <==> (p.scales_non_negative() && dims_ok(*g, *p)),
        (r matches Err(e) && e == TranscodeError::InvalidScale) <==> !p.scales_non_negative(),
        (r matches Err(e) && e == TranscodeError::DegenerateDimension) <==> (
        p.scales_non_negative() && !dims_ok(*g, *p)),
        r matches Ok(b) ==> b@ == deflate_of(render_payload_spec(*g, *p)) && inflate_of(b@)
            == Some(render_payload_spec(*g, *p)),
{
    if p.width_scale_milli < 0 || p.height_scale_milli < 0 {
        return Err(TranscodeError::InvalidScale);
    }
    let tw128: u128 = scaled_dimension(g.width, p.width_scale_milli);
    let th128: u128 = scaled_dimension(g.height, p.height_scale_milli);
    if tw128 < 1 || tw128 > 0xFFFF_FFFFu128 || th128 < 1 || th128 > 0xFFFF_FFFFu128 {
        return Err(TranscodeError::DegenerateDimension);
    }
    proof {
        assert(3 * (tw128 as int) * (th128 as int) <= 3 * 0xFFFF_FFFF * 0xFFFF_FFFF && (
        th128 as int) * (tw128 as int + 1) <= 0xFFFF_FFFF * 0x1_0000_0000) by (nonlinear_arith)
            requires
                1 <= tw128 <= 0xFFFF_FFFF,
                1 <= th128 <= 0xFFFF_FFFF,
        ;
    }
    let trailer_len: usize = trailer_bytes(p).len();
    let usize_max: u128 = usize::MAX as u128;
    if 3 * tw128 * th128 > usize_max {
        return Err(TranscodeError::DegenerateDimension);
    }
    if th128 * (tw128 + 1) + (trailer_len as u128) > usize_max {
        return Err(TranscodeError::DegenerateDimension);
    }
    let tw: usize = tw128 as usize;
    let th: usize = th128 as usize;
    proof {
        if g.width == 0 {
            assert((g.width as int) * (p.width_scale_milli as int) == 0) by (nonlinear_arith)
                requires
                    g.width == 0,
            ;
        }
        if g.height == 0 {
            assert((g.height as int) * (p.height_scale_milli as int) == 0) by (nonlinear_arith)
                requires
                    g.height == 0,
            ;
        }
    }
    let resized = resize_nearest(g, tw, th);
    let gray = to_grayscale(&resized);
    let sharp = sharpen(&gray);
    let adjusted = adjust_contrast(&sharp, p.contrast_milli);
    let canvas = glyph_canvas(&adjusted);
    Ok(encode_container(canvas, p))
}

/// Renders raw encoded image bytes into a container blob: the whole render
/// pipeline short of file I/O. Scale validation comes first, then the image
/// decode, then the transform, glyph and container stages; whatever grid the
/// decoder produced, the blob compresses the payload of that grid.
pub fn render_bytes(image_bytes: &Vec<u8>, p: &TransformParameters) -> (r: Result<
    Vec<u8>,
    TranscodeError,
>)
    ensures
        (r matches Err(e) && e == TranscodeError::InvalidScale) <==> !p.scales_non_negative(),
        r matches Err(e) ==> (e == TranscodeError::InvalidScale || e
            == TranscodeError::SourceUnreadable || e == TranscodeError::DegenerateDimension),
        r matches Ok(b) ==> exists|g: PixelGrid|
            {
                &&& g.wf()
                &&& dims_ok(g, *p)
                &&& b@ == deflate_of(#[trigger] render_payload_spec(g, *p))
                &&& inflate_of(b@) == Some(render_payload_spec(g, *p))
            },
{
    if p.width_scale_milli < 0 || p.height_scale_milli < 0 {
        return Err(TranscodeError::InvalidScale);
    }
    let grid = match load_pixels(image_bytes) {
        Ok(grid) => grid,
        Err(e) => {
            return Err(e);
        },
    };
    match render(&grid, p) {
        Ok(b) => {
            proof {
                assert(b@ == deflate_of(render_payload_spec(grid, *p)));
            }
            Ok(b)
        },
        Err(e) => Err(e),
    }
}

/// Every byte of a render payload is below 128: glyphs and row terminators
/// are printable ASCII or the newline, and so is the trailer.
pub proof fn lemma_payload_ascii(g: PixelGrid, p: TransformParameters)
    ensures
        forall|i: int| 0 <= i < render_payload_spec(g, p).len() ==> #[trigger] render_payload_spec(
            g,
            p,
        )[i] < 128,
{
    lemma_palette_ascii();
    lemma_palette_bounds();
    lemma_trailer_ascii(p);
    let tw = scaled_width(g, p);
    let th = scaled_height(g, p);
    let canvas = canvas_spec(chain_luma_spec(g, p), tw, th);
    assert forall|i: int| 0 <= i < render_payload_spec(g, p).len() implies #[trigger]
    render_payload_spec(g, p)[i] < 128 by {
        if i < canvas.len() {
            assert(render_payload_spec(g, p)[i] == canvas[i]);
            if i % (tw + 1) != tw {
                let l = chain_luma_spec(g, p)[(i / (tw + 1)) * tw + i % (tw + 1)];
                assert(canvas[i] == glyph_for(l));
            }
        } else {
            assert(render_payload_spec(g, p)[i] == trailer_spec(p)[i - canvas.len()]);
        }
    }
}

/// Determinism: rendering the same grid with the same parameters twice
/// yields byte-identical container blobs, because each blob is the DEFLATE
/// image of the same payload.
pub proof fn lemma_render_deterministic(
    g: PixelGrid,
    p: TransformParameters,
    b1: Seq<u8>,
    b2: Seq<u8>,
)
    requires
        b1 == deflate_of(render_payload_spec(g, p)),
        b2 == deflate_of(render_payload_spec(g, p)),
    ensures
        b1 == b2,
{
}

/// Round trip: rendering a valid grid with usable parameters and opening
/// the resulting blob succeeds, and the text that comes back is exactly the
/// payload, character for character — a non-empty canvas of `scaled_height`
/// glyph rows, each of `scaled_width` glyphs followed by one row terminator,
/// with the parameter trailer after them.
pub fn render_round_trip(g: &PixelGrid, p: &TransformParameters) -> (r: (Vec<u8>, String))
    requires
        g.wf(),
        p.scales_non_negative(),
        dims_ok(*g, *p),
    ensures
        r.0@ == deflate_of(render_payload_spec(*g, *p)),
        r.1@.len() == render_payload_spec(*g, *p).len(),
        r.1@.len() == scaled_height(*g, *p) * (scaled_width(*g, *p) + 1) + trailer_spec(
            *p,
        ).len(),
        r.1@.len() > 0,
        forall|i: int| 0 <= i < r.1@.len() ==> (#[trigger] r.1@[i]) as u32
            == render_payload_spec(*g, *p)[i] as u32,
        forall|i: int| 0 <= i < scaled_height(*g, *p) * (scaled_width(*g, *p) + 1) ==> ((
        #[trigger] r.1@[i]) == '\n' <==> i % (scaled_width(*g, *p) + 1) == scaled_width(*g, *p)),
{
    let blob = match render(g, p) {
        Ok(b) => b,
        Err(_) => vstd::pervasive::unreached(),
    };
    proof {
        lemma_payload_ascii(*g, *p);
        lemma_ascii_bytes_utf8(render_payload_spec(*g, *p));
    }
    let text = match open_container(&blob) {
        Ok(s) => s,
        Err(_) => vstd::pervasive::unreached(),
    };
    proof {
        let payload = render_payload_spec(*g, *p);
        let tw = scaled_width(*g, *p);
        let th = scaled_height(*g, *p);
        lemma_palette_ascii();
        lemma_palette_bounds();
        assert(th * (tw + 1) >= 1 * (1 + 1)) by (nonlinear_arith)
            requires
                th >= 1,
                tw >= 1,
        ;
        assert('\n' as u32 == 10);
        assert forall|i: int| 0 <= i < th * (tw + 1) implies ((#[trigger] text@[i]) == '\n' <==> i
            % (tw + 1) == tw) by {
            assert(text@[i] as u32 == payload[i] as u32);
            assert(payload[i] == canvas_spec(chain_luma_spec(*g, *p), tw, th)[i]);
            if i % (tw + 1) == tw {
                assert(payload[i] == 10);
                vstd::utf8::char_u32_cast(text@[i], text@[i] as u32);
                vstd::utf8::char_u32_cast('\n', text@[i] as u32);
            } else {
                let l = chain_luma_spec(*g, *p)[(i / (tw + 1)) * tw + i % (tw + 1)];
                assert(payload[i] == glyph_for(l));
                assert(payload[i] > 31);
            }
        }
    }
    (blob, text)
}

} // verus!
