//! Nearest-neighbor upscaling of a sprite for raster export.

use vstd::arithmetic::div_mod::lemma_multiply_divide_lt;
use vstd::prelude::*;

use crate::sprite::chan_at;
use crate::sprite::Sprite;

verus! {

/// Upscales `s` by the integer `factor`, replicating each source pixel
/// into a `factor` by `factor` block: output position `(x, y)` shows the
/// source pixel at `(x / factor, y / factor)`.
#[verifier::loop_isolation(true)]
pub fn scale_nearest(s: &Sprite, factor: u32) -> (r: Sprite)
    requires
        s.wf(),
        factor >= 1,
        (s.width as int) * (factor as int) < 0x100000000,
        (s.height as int) * (factor as int) < 0x100000000,
    ensures
        r.wf(),
        r.width == (s.width as int) * (factor as int),
        r.height == (s.height as int) * (factor as int),
        forall|x: int, y: int, c: int|
            0 <= x < r.width && 0 <= y < r.height && 0 <= c < 4 ==> #[trigger] r.chan(x, y, c)
                == s.chan(x / (factor as int), y / (factor as int), c),
{
    let w = s.width;
    let h = s.height;
    let f = factor;
    let ow: u32 = w * f;
    let oh: u32 = h * f;
    let src_len: usize = s.pixels.len();
    let mut out: Vec<u8> = Vec::new();
    let mut y: u32 = 0;
    proof {
        assert(4 * (y as int) * (ow as int) == 0) by (nonlinear_arith)
            requires
                y == 0,
        ;
    }
    while y < oh
        invariant
            s.wf(),
            f >= 1,
            w == s.width,
            h == s.height,
            ow == (w as int) * (f as int),
            oh == (h as int) * (f as int),
            src_len == s.pixels@.len(),
            y <= oh,
            out@.len() == 4 * (y as int) * (ow as int),
            forall|xx: int, yy: int, cc: int|
                0 <= xx < ow && 0 <= yy < y && 0 <= cc < 4 ==> #[trigger] chan_at(
                    out@,
                    ow as int,
                    xx,
                    yy,
                    cc,
                ) == s.chan(xx / (f as int), yy / (f as int), cc),
        decreases oh - y,
    {
        let sy: u32 = y / f;
        proof {
            assert((y as int) < (f as int) * (h as int)) by (nonlinear_arith)
                requires
                    y < oh,
                    oh == (h as int) * (f as int),
            ;
            lemma_multiply_divide_lt(y as int, f as int, h as int);
        }
        let mut x: u32 = 0;
        while x < ow
            invariant
                s.wf(),
                f >= 1,
                w == s.width,
                h == s.height,
                ow == (w as int) * (f as int),
                oh == (h as int) * (f as int),
                src_len == s.pixels@.len(),
                y < oh,
                sy == (y as int) / (f as int),
                sy < h,
                x <= ow,
                out@.len() == 4 * (y as int) * (ow as int) + 4 * (x as int),
                forall|xx: int, yy: int, cc: int|
                    0 <= xx < ow && 0 <= yy < y && 0 <= cc < 4 ==> #[trigger] chan_at(
                        out@,
                        ow as int,
                        xx,
                        yy,
                        cc,
                    ) == s.chan(xx / (f as int), yy / (f as int), cc),
                forall|xx: int, cc: int|
                    0 <= xx < x && 0 <= cc < 4 ==> #[trigger] chan_at(
                        out@,
                        ow as int,
                        xx,
                        y as int,
                        cc,
                    ) == s.chan(xx / (f as int), (y as int) / (f as int), cc),
            decreases ow - x,
        {
            let sx: u32 = x / f;
            proof {
                assert((x as int) < (f as int) * (w as int)) by (nonlinear_arith)
                    requires
                        x < ow,
                        ow == (w as int) * (f as int),
                ;
                lemma_multiply_divide_lt(x as int, f as int, w as int);
                assert(4 * ((sy as int) * (w as int) + (sx as int)) + 3 < 4 * (w as int) * (
                h as int)) by (nonlinear_arith)
                    requires
                        sy < h,
                        sx < w,
                ;
            }
            let base: usize = 4 * ((sy as usize) * (w as usize) + (sx as usize));
            let ghost pre = out@;
            out.push(s.pixels[base]);
            out.push(s.pixels[base + 1]);
            out.push(s.pixels[base + 2]);
            out.push(s.pixels[base + 3]);
            proof {
                assert forall|xx: int, yy: int, cc: int|
                    0 <= xx < ow && 0 <= yy < y && 0 <= cc < 4 implies #[trigger] chan_at(
                    out@,
                    ow as int,
                    xx,
                    yy,
                    cc,
                ) == s.chan(xx / (f as int), yy / (f as int), cc) by {
                    assert(0 <= 4 * (yy * (ow as int) + xx) + cc < pre.len()) by (nonlinear_arith)
                        requires
                            0 <= xx < ow,
                            0 <= yy < y,
                            0 <= cc < 4,
                            0 <= x,
                            pre.len() == 4 * (y as int) * (ow as int) + 4 * (x as int),
                    ;
                    assert(chan_at(pre, ow as int, xx, yy, cc) == s.chan(
                        xx / (f as int),
                        yy / (f as int),
                        cc,
                    ));
                    assert(out@[4 * (yy * (ow as int) + xx) + cc] == pre[4 * (yy * (ow as int) + xx)
                        + cc]);
                }
                assert forall|xx: int, cc: int|
                    0 <= xx < x + 1 && 0 <= cc < 4 implies #[trigger] chan_at(
                    out@,
                    ow as int,
                    xx,
                    y as int,
                    cc,
                ) == s.chan(xx / (f as int), (y as int) / (f as int), cc) by {
                    if xx < x {
                        assert(0 <= 4 * ((y as int) * (ow as int) + xx) + cc < pre.len())
                            by (nonlinear_arith)
                            requires
                                0 <= xx < x,
                                0 <= cc < 4,
                                0 <= (y as int) * (ow as int),
                                pre.len() == 4 * (y as int) * (ow as int) + 4 * (x as int),
                        ;
                        assert(chan_at(pre, ow as int, xx, y as int, cc) == s.chan(
                            xx / (f as int),
                            (y as int) / (f as int),
                            cc,
                        ));
                        assert(out@[4 * ((y as int) * (ow as int) + xx) + cc] == pre[4 * ((y as int)
                            * (ow as int) + xx) + cc]);
                    } else {
                        assert(4 * ((y as int) * (ow as int) + xx) + cc == pre.len() + cc)
                            by (nonlinear_arith)
                            requires
                                xx == x,
                                pre.len() == 4 * (y as int) * (ow as int) + 4 * (x as int),
                        ;
                        assert(out@[pre.len() + cc] == s.pixels@[base + cc]);
                        assert(base + cc == 4 * (((y as int) / (f as int)) * (w as int) + ((
                        x as int) / (f as int))) + cc);
                    }
                }
            }
            x = x + 1;
        }
        proof {
            assert(4 * (y as int) * (ow as int) + 4 * (ow as int) == 4 * ((y as int) + 1) * (
            ow as int)) by (nonlinear_arith);
        }
        y = y + 1;
    }
    proof {
        assert(4 * (oh as int) * (ow as int) == 4 * (ow as int) * (oh as int))
            by (nonlinear_arith);
    }
    Sprite { width: ow, height: oh, pixels: out }
}

} // verus!
