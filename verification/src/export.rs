//! Rasterization of a raw pixel buffer for export: validates the buffer
//! against the requested dimensions and applies the optional
//! nearest-neighbor upscale.

use vstd::arithmetic::div_mod::lemma_multiply_divide_lt;
use vstd::prelude::*;

use crate::messages::export_buffer_error;
use crate::scale::scale_nearest;
use crate::sprite::chan_at;
use crate::sprite::Sprite;

verus! {

/// The upscale factor that an export actually applies: factors of zero
/// and one leave the sprite at its original size.
pub open spec fn effective_scale(scale_factor: u32) -> int {
    if scale_factor > 1 {
        scale_factor as int
    } else {
        1
    }
}

/// Builds the image to write for an export request: the buffer must hold
/// at least `width * height` RGBA pixels (bytes beyond them are
/// ignored), and the image is upscaled by `scale_factor` when that is
/// above one. Returns `Err` exactly when the buffer is too short for the
/// dimensions.
pub fn rasterize(width: u32, height: u32, scale_factor: u32, pixels: Vec<u8>) -> (r: Result<
    Sprite,
    String,
>)
    requires
        scale_factor > 1 ==> (width as int) * (scale_factor as int) < 0x100000000 && (
        height as int) * (scale_factor as int) < 0x100000000,
    ensures
        r is Ok <==> pixels@.len() >= 4 * (width as int) * (height as int),
        r matches Err(m) ==> m@ == "Failed to create original image buffer from pixels"@,
        r matches Ok(img) ==> {
            &&& img.wf()
            &&& img.width == (width as int) * effective_scale(scale_factor)
            &&& img.height == (height as int) * effective_scale(scale_factor)
            &&& forall|x: int, y: int, c: int|
                0 <= x < img.width && 0 <= y < img.height && 0 <= c < 4
                    ==> #[trigger] img.chan(x, y, c) == chan_at(
                    pixels@,
                    width as int,
                    x / effective_scale(scale_factor),
                    y / effective_scale(scale_factor),
                    c,
                )
        },
{
    let ghost pix = pixels@;
    let original = match Sprite::from_pixels(width, height, pixels) {
        Some(s) => s,
        None => {
            return Err(export_buffer_error());
        },
    };
    if scale_factor > 1 {
        let img = scale_nearest(&original, scale_factor);
        proof {
            let f = scale_factor as int;
            let w = width as int;
            let h = height as int;
            assert forall|x: int, y: int, c: int|
                0 <= x < img.width && 0 <= y < img.height && 0 <= c < 4 implies #[trigger] img.chan(
                x,
                y,
                c,
            ) == chan_at(pix, w, x / f, y / f, c) by {
                assert(x < f * w) by (nonlinear_arith)
                    requires
                        x < img.width,
                        img.width == w * f,
                ;
                lemma_multiply_divide_lt(x, f, w);
                assert(y < f * h) by (nonlinear_arith)
                    requires
                        y < img.height,
                        img.height == h * f,
                ;
                lemma_multiply_divide_lt(y, f, h);
                let sx = x / f;
                let sy = y / f;
                assert(0 <= 4 * (sy * w + sx) + c < 4 * w * h) by (nonlinear_arith)
                    requires
                        0 <= sx < w,
                        0 <= sy < h,
                        0 <= c < 4,
                ;
                assert(original.pixels@[4 * (sy * w + sx) + c] == pix[4 * (sy * w + sx) + c]);
            }
        }
        Ok(img)
    } else {
        let img = original;
        proof {
            let w = width as int;
            let h = height as int;
            assert((width as int) * effective_scale(scale_factor) == width as int)
                by (nonlinear_arith)
                requires
                    effective_scale(scale_factor) == 1,
            ;
            assert((height as int) * effective_scale(scale_factor) == height as int)
                by (nonlinear_arith)
                requires
                    effective_scale(scale_factor) == 1,
            ;
            assert forall|x: int, y: int, c: int|
                0 <= x < img.width && 0 <= y < img.height && 0 <= c < 4 implies #[trigger] img.chan(
                x,
                y,
                c,
            ) == chan_at(
                pix,
                w,
                x / effective_scale(scale_factor),
                y / effective_scale(scale_factor),
                c,
            ) by {
                assert(x / effective_scale(scale_factor) == x) by (nonlinear_arith)
                    requires
                        effective_scale(scale_factor) == 1,
                        0 <= x,
                ;
                assert(y / effective_scale(scale_factor) == y) by (nonlinear_arith)
                    requires
                        effective_scale(scale_factor) == 1,
                        0 <= y,
                ;
                assert(0 <= 4 * (y * w + x) + c < 4 * w * h) by (nonlinear_arith)
                    requires
                        0 <= x < w,
                        0 <= y < h,
                        0 <= c < 4,
                ;
                assert(img.pixels@[4 * (y * w + x) + c] == pix[4 * (y * w + x) + c]);
            }
        }
        Ok(img)
    }
}

} // verus!
