//! Transform parameters and the textual metadata trailer.
//!
//! Scale factors and the contrast adjustment are fixed-point numbers held in
//! thousandths, so a width scale of 0.65 is stored as 650. The trailer is the
//! decimal rendering of the parameters, `Scale: W, H\nContrast: C`, where each
//! number prints its integer part and, when the fractional part is non-zero,
//! a dot followed by the fraction with trailing zeros removed.

use vstd::prelude::*;

verus! {

/// The transform parameters of one render invocation: two scale factors and a
/// contrast adjustment, all in thousandths. Immutable once constructed; they
/// flow unchanged from the caller into the container trailer.
#[derive(Clone, Copy, Debug, PartialEq, Eq, Structural)]
pub struct TransformParameters {
    /// Width scale factor, in thousandths. Negative values are rejected.
    pub width_scale_milli: i64,
    /// Height scale factor, in thousandths. Negative values are rejected.
    pub height_scale_milli: i64,
    /// Contrast adjustment, in thousandths; any magnitude, sign included.
    pub contrast_milli: i64,
}

impl TransformParameters {
    /// Both scale factors are non-negative.
    pub open spec fn scales_non_negative(&self) -> bool {
        self.width_scale_milli >= 0 && self.height_scale_milli >= 0
    }

    pub fn new(width_scale_milli: i64, height_scale_milli: i64, contrast_milli: i64) -> (r:
        TransformParameters)
        ensures
            r.width_scale_milli == width_scale_milli,
            r.height_scale_milli == height_scale_milli,
            r.contrast_milli == contrast_milli,
    {
        TransformParameters { width_scale_milli, height_scale_milli, contrast_milli }
    }
}

/// The decimal digits of `n`, most significant first, as ASCII bytes.
pub open spec fn dec_digits(n: nat) -> Seq<u8>
    decreases n,
{
    if n < 10 {
        seq![(n + 48) as u8]
    } else {
        dec_digits(n / 10).push((n % 10 + 48) as u8)
    }
}

/// The decimal rendering of a non-negative number of thousandths: the integer
/// part, then, if the fractional part is non-zero, a dot and the fraction with
/// trailing zeros removed.
pub open spec fn milli_magnitude_digits(m: nat) -> Seq<u8> {
    let whole = m / 1000;
    let frac = m % 1000;
    if frac == 0 {
        dec_digits(whole)
    } else if frac % 10 != 0 {
        dec_digits(whole) + seq![
            46u8,
            (frac / 100 + 48) as u8,
            (frac / 10 % 10 + 48) as u8,
            (frac % 10 + 48) as u8,
        ]
    } else if frac % 100 != 0 {
        dec_digits(whole) + seq![46u8, (frac / 100 + 48) as u8, (frac / 10 % 10 + 48) as u8]
    } else {
        dec_digits(whole) + seq![46u8, (frac / 100 + 48) as u8]
    }
}

/// The decimal rendering of a signed number of thousandths: a minus sign for
/// negative values, then the magnitude.
pub open spec fn milli_digits(v: int) -> Seq<u8> {
    if v < 0 {
        seq![45u8] + milli_magnitude_digits((-v) as nat)
    } else {
        milli_magnitude_digits(v as nat)
    }
}

/// The ASCII bytes of `"Scale: "`.
pub open spec fn scale_label() -> Seq<u8> {
    seq![83u8, 99u8, 97u8, 108u8, 101u8, 58u8, 32u8]
}

/// The ASCII bytes of `", "`.
pub open spec fn scale_separator() -> Seq<u8> {
    seq![44u8, 32u8]
}

/// The ASCII bytes of `"\nContrast: "`.
pub open spec fn contrast_label() -> Seq<u8> {
    seq![10u8, 67u8, 111u8, 110u8, 116u8, 114u8, 97u8, 115u8, 116u8, 58u8, 32u8]
}

/// The metadata trailer appended to the glyph canvas before compression:
/// `Scale: W, H\nContrast: C` with each parameter rendered in decimal.
pub open spec fn trailer_spec(p: TransformParameters) -> Seq<u8> {
    scale_label() + milli_digits(p.width_scale_milli as int) + scale_separator() + milli_digits(
        p.height_scale_milli as int,
    ) + contrast_label() + milli_digits(p.contrast_milli as int)
}

/// Decimal digits are the ASCII bytes 48 through 57.
pub proof fn lemma_dec_digits_ascii(n: nat)
    ensures
        forall|i: int| 0 <= i < dec_digits(n).len() ==> 47 < #[trigger] dec_digits(n)[i] < 58,
    decreases n,
{
    if n >= 10 {
        lemma_dec_digits_ascii(n / 10);
        let s = dec_digits(n / 10);
        assert forall|i: int| 0 <= i < dec_digits(n).len() implies 47 < #[trigger] dec_digits(n)[i]
            < 58 by {
            if i < s.len() {
                assert(dec_digits(n)[i] == s[i]);
            } else {
                assert(dec_digits(n)[i] == (n % 10 + 48) as u8);
            }
        }
    }
}

/// Every byte of a rendered parameter is printable ASCII: a digit, a minus
/// sign or a dot.
pub proof fn lemma_milli_digits_ascii(v: int)
    ensures
        forall|i: int| 0 <= i < milli_digits(v).len() ==> 44 < #[trigger] milli_digits(v)[i] < 58,
{
    if v < 0 {
        lemma_dec_digits_ascii(((-v) as nat) / 1000);
    } else {
        lemma_dec_digits_ascii((v as nat) / 1000);
    }
}

/// Every byte of the trailer is below 128, so the trailer is ASCII text.
pub proof fn lemma_trailer_ascii(p: TransformParameters)
    ensures
        forall|i: int| 0 <= i < trailer_spec(p).len() ==> #[trigger] trailer_spec(p)[i] < 128,
{
    lemma_milli_digits_ascii(p.width_scale_milli as int);
    lemma_milli_digits_ascii(p.height_scale_milli as int);
    lemma_milli_digits_ascii(p.contrast_milli as int);
}

/// Appends the decimal digits of `n` to `out`.
fn push_decimal(out: &mut Vec<u8>, n: u64)
    ensures
        final(out)@ == old(out)@ + dec_digits(n as nat),
    decreases n,
{
    if n < 10 {
        out.push((n as u8) + 48);
        assert(out@ =~= old(out)@ + dec_digits(n as nat));
    } else {
        push_decimal(out, n / 10);
        out.push((n % 10) as u8 + 48);
        assert(out@ =~= old(out)@ + dec_digits(n as nat));
    }
}

/// Appends the decimal rendering of a non-negative number of thousandths.
fn push_milli_magnitude(out: &mut Vec<u8>, m: u64)
    ensures
        final(out)@ == old(out)@ + milli_magnitude_digits(m as nat),
{
    let whole: u64 = m / 1000;
    let frac: u64 = m % 1000;
    push_decimal(out, whole);
    if frac != 0 {
        out.push(46);
        out.push((frac / 100) as u8 + 48);
        if frac % 10 != 0 {
            out.push((frac / 10 % 10) as u8 + 48);
            out.push((frac % 10) as u8 + 48);
        } else if frac % 100 != 0 {
            out.push((frac / 10 % 10) as u8 + 48);
        }
    }
    assert(out@ =~= old(out)@ + milli_magnitude_digits(m as nat));
}

/// Appends the decimal rendering of a signed number of thousandths.
fn push_milli(out: &mut Vec<u8>, v: i64)
    ensures
        final(out)@ == old(out)@ + milli_digits(v as int),
{
    if v < 0 {
        out.push(45);
        let magnitude: u64 = ((-(v as i128)) as u64);
        push_milli_magnitude(out, magnitude);
        assert(out@ =~= old(out)@ + milli_digits(v as int));
    } else {
        push_milli_magnitude(out, v as u64);
    }
}

/// Serializes the transform parameters into the trailer bytes.
pub fn trailer_bytes(p: &TransformParameters) -> (r: Vec<u8>)
    ensures
        r@ == trailer_spec(*p),
{
    let mut out: Vec<u8> = Vec::new();
    out.push(83);
    out.push(99);
    out.push(97);
    out.push(108);
    out.push(101);
    out.push(58);
    out.push(32);
    assert(out@ =~= scale_label());
    push_milli(&mut out, p.width_scale_milli);
    out.push(44);
    out.push(32);
    push_milli(&mut out, p.height_scale_milli);
    out.push(10);
    out.push(67);
    out.push(111);
    out.push(110);
    out.push(116);
    out.push(114);
    out.push(97);
    out.push(115);
    out.push(116);
    out.push(58);
    out.push(32);
    push_milli(&mut out, p.contrast_milli);
    assert(out@ =~= trailer_spec(*p));
    out
}

} // verus!
