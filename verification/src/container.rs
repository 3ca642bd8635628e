//! The container codec. Encoding appends the parameter trailer to the glyph
//! canvas and compresses the combined bytes with DEFLATE at a fixed level;
//! decoding decompresses a blob and validates the payload as UTF-8 text,
//! which is returned whole — glyph rows and trailer together, unparsed.

use vstd::prelude::*;
use vstd::utf8::*;

use crate::errors::TranscodeError;
use crate::params::{trailer_bytes, trailer_spec, TransformParameters};

verus! {

/// What `miniz_oxide::deflate::compress_to_vec` returns, at the fixed
/// compression level, for the given input bytes.
pub uninterp spec fn deflate_of(data: Seq<u8>) -> Seq<u8>;

/// What `miniz_oxide::inflate::decompress_to_vec` recovers from a blob: the
/// decompressed bytes, or nothing when the stream is malformed or truncated.
pub uninterp spec fn inflate_of(data: Seq<u8>) -> Option<Seq<u8>>;

/// The error type of `miniz_oxide::inflate::decompress_to_vec`.
#[verifier::external_type_specification]
#[verifier::external_body]
pub struct ExDecompressError(miniz_oxide::inflate::DecompressError);

/// Relies on `miniz_oxide::deflate::compress_to_vec` at fixed level 10: the
/// result depends on the input bytes alone, and DEFLATE is lossless, so
/// decompressing the result recovers exactly the input.
#[verifier::external_body]
pub(crate) fn compress(data: &Vec<u8>) -> (r: Vec<u8>)
    ensures
        r@ == deflate_of(data@),
        inflate_of(r@) == Some(data@),
{
    miniz_oxide::deflate::compress_to_vec(data.as_slice(), 10)
}

/// Relies on `miniz_oxide::inflate::decompress_to_vec`: it returns the
/// decompressed bytes of a well-formed DEFLATE stream and an error on a
/// malformed one, and the outcome depends on the input bytes alone.
#[verifier::external_body]
pub(crate) fn decompress(data: &Vec<u8>) -> (r: Result<
    Vec<u8>,
    miniz_oxide::inflate::DecompressError,
>)
    ensures
        match r {
            Ok(v) => inflate_of(data@) == Some(v@),
            Err(_) => inflate_of(data@) is None,
        },
{
    miniz_oxide::inflate::decompress_to_vec(data.as_slice())
}

/// Relies on `String::from_utf8` of std: it returns the decoded string
/// exactly when the bytes are valid UTF-8, and fails otherwise.
#[verifier::external_body]
pub(crate) fn bytes_to_string(data: Vec<u8>) -> (r: Option<String>)
    ensures
        match r {
            Some(s) => valid_utf8(data@) && s@ == decode_utf8(data@),
            None => !valid_utf8(data@),
        },
{
    String::from_utf8(data).ok()
}

/// A sequence of bytes below 128 is valid UTF-8 and decodes to the
/// characters with the same code points, one per byte.
pub proof fn lemma_ascii_bytes_utf8(bytes: Seq<u8>)
    requires
        forall|i: int| 0 <= i < bytes.len() ==> #[trigger] bytes[i] < 128,
    ensures
        valid_utf8(bytes),
        decode_utf8(bytes).len() == bytes.len(),
        forall|i: int| 0 <= i < bytes.len() ==> (#[trigger] decode_utf8(bytes)[i]) as u32
            == bytes[i] as u32,
{
    let chars = Seq::new(bytes.len(), |i: int| ((bytes[i] as u32) as char));
    assert forall|i: int| 0 <= i < chars.len() implies '\0' <= #[trigger] chars[i] <= '\u{7f}'
        && chars[i] as u32 == bytes[i] as u32 && chars[i] as u8 == bytes[i] by {
        assert(bytes[i] < 128);
    }
    assert(is_ascii_chars(chars));
    is_ascii_chars_encode_utf8(chars);
    assert(encode_utf8(chars) =~= bytes);
    encode_utf8_valid_utf8(chars);
    encode_utf8_decode_utf8(chars);
}

/// The decompressed payload of an encoded container: the canvas bytes
/// followed by the parameter trailer, with no delimiter between them.
pub open spec fn payload_spec(canvas: Seq<u8>, p: TransformParameters) -> Seq<u8> {
    canvas + trailer_spec(p)
}

/// Appends the parameter trailer to the glyph canvas and compresses the
/// combined bytes into the container blob at the fixed compression level.
pub fn encode_container(canvas: Vec<u8>, p: &TransformParameters) -> (r: Vec<u8>)
    requires
        canvas@.len() + trailer_spec(*p).len() <= usize::MAX,
    ensures
        r@ == deflate_of(payload_spec(canvas@, *p)),
        inflate_of(r@) == Some(payload_spec(canvas@, *p)),
{
    let mut payload = canvas;
    let mut t = trailer_bytes(p);
    payload.append(&mut t);
    compress(&payload)
}

/// Decodes a container blob: decompresses it, then validates the payload as
/// UTF-8 and returns the whole text verbatim. Fails with `CorruptContainer`
/// exactly when the blob is not a well-formed DEFLATE stream, and with
/// `InvalidEncoding` exactly when the decompressed bytes are not UTF-8.
pub fn open_container(blob: &Vec<u8>) -> (r: Result<String, TranscodeError>)
    ensures
        r is Ok <==> (inflate_of(blob@) matches Some(pl) && valid_utf8(pl)),
        r matches Ok(s) ==> (inflate_of(blob@) matches Some(pl) && s@ == decode_utf8(pl)),
        r matches Err(e) ==> (e == TranscodeError::CorruptContainer || e
            == TranscodeError::InvalidEncoding),
        r matches Err(e) ==> ((e == TranscodeError::CorruptContainer) <==> inflate_of(blob@)
            is None),
{
    let payload: Vec<u8> = match decompress(blob) {
        Ok(v) => v,
        Err(_) => {
            return Err(TranscodeError::CorruptContainer);
        },
    };
    match bytes_to_string(payload) {
        Some(s) => Ok(s),
        None => Err(TranscodeError::InvalidEncoding),
    }
}

} // verus!
