//! Image preprocessing: decoding arbitrary compressed image bytes into a
//! fixed-shape, channel-first pixel tensor.
//!
//! Decoding and crop-to-fill resizing are delegated to the image crate behind
//! a trusted wrapper; the reordering of the decoded pixels into channel-first
//! layout is verified here.  The tensor holds the raw `0..=255` channel
//! bytes; the fixed-point-free per-channel normalization into model input is
//! floating-point work and is applied by the unverified shell that hands the
//! tensor to the model.

use vstd::prelude::*;

use crate::error::CaptionError;

verus! {

/// Side length of the square target box every input image is resized to.
pub const IMAGE_SIDE: usize = 384;

/// Colour channels of a decoded pixel.
pub const CHANNELS: usize = 3;

/// Spatial positions of the target box.
pub const PIXEL_COUNT: usize = 384 * 384;

/// The interleaved pixel bytes (row-major; red, green, blue per position)
/// that decoding an image byte buffer and crop-to-fill resizing it to the
/// 384 by 384 target box yields.  The result is a function of the input
/// bytes alone.
pub uninterp spec fn rgb_pixels_of(bytes: Seq<u8>) -> Seq<u8>;

/// Whether a byte buffer is a recognizable, intact image: exactly the
/// buffers the image crate's auto-detecting reader decodes.  Decoding is
/// deterministic, so this is a function of the bytes alone.
pub uninterp spec fn image_decodable(bytes: Seq<u8>) -> bool;

/// Relies on image::ImageReader with format auto-detection, on
/// image::DynamicImage::resize_to_fill with the triangle filter, and on
/// DynamicImage::to_rgb8: decoding is deterministic in the input bytes and
/// succeeds exactly on recognizable, intact buffers, and resizing to fill a
/// 384 by 384 box then converting to 3-channel colour yields exactly
/// 384 * 384 interleaved 3-byte pixels.
#[verifier::external_body]
fn decode_rgb_pixels(bytes: &Vec<u8>) -> (r: Result<Vec<u8>, CaptionError>)
    ensures
        r is Ok <==> image_decodable(bytes@),
        r matches Ok(v) ==> v@ == rgb_pixels_of(bytes@) && v@.len() == 384 * 384 * 3,
        r matches Err(e) ==> e == CaptionError::DecodeError,
{
    let reader = image::ImageReader::new(std::io::Cursor::new(bytes.as_slice()))
        .with_guessed_format()
        .map_err(|_| CaptionError::DecodeError)?;
    let img = reader.decode().map_err(|_| CaptionError::DecodeError)?;
    let img = img.resize_to_fill(384, 384, image::imageops::FilterType::Triangle);
    Ok(img.to_rgb8().into_raw())
}

/// A channel-first 384 by 384 pixel tensor: the value of channel `c` at row
/// `y`, column `x` sits at index `c * 384 * 384 + y * 384 + x`.  Shape is
/// identical regardless of the source image's dimensions or format.
#[derive(Debug)]
pub struct ImageTensor {
    /// Channel-major pixel bytes, exactly `3 * 384 * 384` of them.
    pub data: Vec<u8>,
}

impl ImageTensor {
    /// The fixed-shape invariant: one byte per channel and spatial position.
    pub open spec fn wf(&self) -> bool {
        self.data@.len() == 3 * 384 * 384
    }

    /// The channel value at channel `c`, row `y`, column `x`.
    pub open spec fn at(&self, c: int, y: int, x: int) -> u8 {
        self.data@[c * (384 * 384) + y * 384 + x]
    }
}

/// Reorders interleaved row-major pixels (red, green, blue per position)
/// into channel-first planes.
fn interleaved_to_planar(src: &Vec<u8>) -> (r: Vec<u8>)
    requires
        src@.len() == 384 * 384 * 3,
    ensures
        r@.len() == 3 * 384 * 384,
        forall|c: int, p: int|
            0 <= c < 3 && 0 <= p < 384 * 384 ==> #[trigger] r@[c * (384 * 384) + p] == src@[p * 3 + c],
{
    let mut out: Vec<u8> = Vec::new();
    let mut c: usize = 0;
    while c < CHANNELS
        invariant
            src@.len() == 384 * 384 * 3,
            c <= 3,
            out@.len() == c * (384 * 384),
            forall|cc: int, p: int|
                0 <= cc < c && 0 <= p < 384 * 384 ==> #[trigger] out@[cc * (384 * 384) + p] == src@[p * 3 + cc],
        decreases 3 - c,
    {
        let mut p: usize = 0;
        while p < PIXEL_COUNT
            invariant
                src@.len() == 384 * 384 * 3,
                c < 3,
                p <= 384 * 384,
                out@.len() == c * (384 * 384) + p,
                forall|cc: int, q: int|
                    0 <= cc < c && 0 <= q < 384 * 384
                        ==> #[trigger] out@[cc * (384 * 384) + q] == src@[q * 3 + cc],
                forall|q: int| 0 <= q < p ==> #[trigger] out@[c * (384 * 384) + q] == src@[q * 3 + c as int],
            decreases 384 * 384 - p,
        {
            let ghost prev_out = out@;
            out.push(src[p * 3 + c]);
            proof {
                assert forall|cc: int, q: int| 0 <= cc < c && 0 <= q < 384 * 384 implies #[trigger] out@[cc
                    * (384 * 384) + q] == src@[q * 3 + cc] by {
                    assert(cc * (384 * 384) + q < c * (384 * 384) + p) by (nonlinear_arith)
                        requires
                            0 <= cc < c,
                            0 <= q < 384 * 384,
                            0 <= p,
                    ;
                    assert(cc * (384 * 384) + q < prev_out.len());
                    assert(out@[cc * (384 * 384) + q] == prev_out[cc * (384 * 384) + q]);
                }
                assert forall|q: int| 0 <= q < p + 1 implies #[trigger] out@[c * (384 * 384) + q]
                    == src@[q * 3 + c as int] by {
                    if q < p {
                        assert(c * (384 * 384) + q < prev_out.len());
                        assert(out@[c * (384 * 384) + q] == prev_out[c * (384 * 384) + q]);
                    } else {
                        assert(c * (384 * 384) + q == prev_out.len());
                    }
                }
            }
            p = p + 1;
        }
        proof {
            assert((c + 1) * (384 * 384) == c * (384 * 384) + 384 * 384) by (nonlinear_arith);
        }
        c = c + 1;
    }
    out
}

/// Decodes an arbitrary compressed image byte buffer and lays it out as a
/// fixed-shape, channel-first tensor.  Success comes exactly on decodable
/// buffers; any unrecognizable or corrupt buffer is rejected with
/// `DecodeError`, and no other failure is possible.
pub fn preprocess(bytes: &Vec<u8>) -> (r: Result<ImageTensor, CaptionError>)
    ensures
        r is Ok <==> image_decodable(bytes@),
        r matches Ok(t) ==> t.wf() && forall|c: int, y: int, x: int|
            0 <= c < 3 && 0 <= y < 384 && 0 <= x < 384
                ==> t.at(c, y, x) == rgb_pixels_of(bytes@)[(y * 384 + x) * 3 + c],
        r matches Err(e) ==> e == CaptionError::DecodeError,
{
    let interleaved = match decode_rgb_pixels(bytes) {
        Ok(v) => v,
        Err(e) => {
            return Err(e);
        },
    };
    let data = interleaved_to_planar(&interleaved);
    let t = ImageTensor { data };
    proof {
        assert forall|c: int, y: int, x: int|
            0 <= c < 3 && 0 <= y < 384 && 0 <= x < 384 implies t.at(c, y, x) == rgb_pixels_of(
            bytes@,
        )[(y * 384 + x) * 3 + c] by {
            let p = y * 384 + x;
            assert(0 <= p < 384 * 384);
            assert(t.data@[c * (384 * 384) + p] == interleaved@[p * 3 + c]);
        }
    }
    Ok(t)
}

/// Whether every spatial position of an interleaved pixel buffer carries the
/// same value within each channel.
pub open spec fn uniform_per_channel(pix: Seq<u8>) -> bool {
    forall|c: int, p: int, q: int|
        0 <= c < 3 && 0 <= p < 384 * 384 && 0 <= q < 384 * 384 ==> #[trigger] pix[p * 3 + c]
            == #[trigger] pix[q * 3 + c]
}

/// Crop-to-fill of a uniform image is uniform: when the decoded pixels carry
/// one value per channel, every spatial position of the preprocessed tensor
/// carries that channel's value.
pub proof fn lemma_uniform_pixels_uniform_tensor(t: ImageTensor, pix: Seq<u8>)
    requires
        t.wf(),
        pix.len() == 384 * 384 * 3,
        forall|c: int, y: int, x: int|
            0 <= c < 3 && 0 <= y < 384 && 0 <= x < 384 ==> t.at(c, y, x) == pix[(y * 384 + x) * 3
                + c],
        uniform_per_channel(pix),
    ensures
        forall|c: int, y: int, x: int, y2: int, x2: int|
            0 <= c < 3 && 0 <= y < 384 && 0 <= x < 384 && 0 <= y2 < 384 && 0 <= x2 < 384 ==> t.at(
                c,
                y,
                x,
            ) == t.at(c, y2, x2),
{
    assert forall|c: int, y: int, x: int, y2: int, x2: int|
        0 <= c < 3 && 0 <= y < 384 && 0 <= x < 384 && 0 <= y2 < 384 && 0 <= x2 < 384 implies t.at(
        c,
        y,
        x,
    ) == t.at(c, y2, x2) by {
        let p = y * 384 + x;
        let q = y2 * 384 + x2;
        assert(0 <= p < 384 * 384);
        assert(0 <= q < 384 * 384);
        assert(t.at(c, y, x) == pix[p * 3 + c]);
        assert(t.at(c, y2, x2) == pix[q * 3 + c]);
        assert(pix[p * 3 + c] == pix[q * 3 + c]);
    }
}

} // verus!
