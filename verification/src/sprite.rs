//! The in-memory sprite: an RGBA pixel buffer with its dimensions.

use vstd::arithmetic::div_mod::lemma_fundamental_div_mod;
use vstd::arithmetic::div_mod::lemma_mod_bound;
use vstd::arithmetic::div_mod::lemma_multiply_divide_lt;
use vstd::prelude::*;

verus! {

/// Channel `c` of the pixel in column `x` of row `y` of a buffer that
/// stores a `width`-pixel-wide RGBA image row by row.
pub open spec fn chan_at(p: Seq<u8>, width: int, x: int, y: int, c: int) -> u8 {
    p[4 * (y * width + x) + c]
}

/// An in-memory sprite. `pixels` stores the image row by row, four bytes
/// (red, green, blue, alpha) per pixel.
#[derive(Debug)]
pub struct Sprite {
    pub width: u32,
    pub height: u32,
    pub pixels: Vec<u8>,
}

impl Sprite {
    /// The buffer holds exactly four bytes for each of the `width * height`
    /// pixels.
    pub open spec fn wf(self) -> bool {
        self.pixels@.len() == 4 * (self.width as int) * (self.height as int)
    }

    /// Channel `c` (0 red, 1 green, 2 blue, 3 alpha) of the pixel in
    /// column `x` of row `y`.
    pub open spec fn chan(self, x: int, y: int, c: int) -> u8 {
        chan_at(self.pixels@, self.width as int, x, y, c)
    }

    /// Builds a sprite from a raw buffer. The buffer must hold at least
    /// the `4 * width * height` bytes the image needs; bytes beyond that
    /// are dropped. A shorter buffer cannot describe a `width` by
    /// `height` RGBA image and `None` is returned.
    pub fn from_pixels(width: u32, height: u32, pixels: Vec<u8>) -> (r: Option<Sprite>)
        ensures
            r is Some <==> pixels@.len() >= 4 * (width as int) * (height as int),
            r matches Some(s) ==> s.width == width && s.height == height && s.pixels@
                == pixels@.subrange(0, 4 * (width as int) * (height as int)) && s.wf(),
    {
        proof {
            assert(0 <= 4 * (width as int) * (height as int) < 0x100000000000000000)
                by (nonlinear_arith)
                requires
                    width < 0x100000000,
                    height < 0x100000000,
            ;
        }
        let needed: u128 = 4u128 * (width as u128) * (height as u128);
        if (pixels.len() as u128) >= needed {
            let mut buf = pixels;
            buf.truncate(needed as usize);
            Some(Sprite { width, height, pixels: buf })
        } else {
            None
        }
    }
}

/// The channels determine the buffer: two well-formed sprites with the
/// same dimensions whose every channel agrees hold the same bytes. So a
/// contract that fixes `wf`, the dimensions and every `chan` value
/// leaves a function one possible result.
pub proof fn lemma_chan_determines_buffer(a: Sprite, b: Sprite)
    requires
        a.wf(),
        b.wf(),
        a.width == b.width,
        a.height == b.height,
        forall|x: int, y: int, c: int|
            0 <= x < a.width && 0 <= y < a.height && 0 <= c < 4 ==> #[trigger] a.chan(x, y, c)
                == b.chan(x, y, c),
    ensures
        a.pixels@ == b.pixels@,
{
    let w = a.width as int;
    let h = a.height as int;
    assert forall|i: int| 0 <= i < a.pixels@.len() implies a.pixels@[i] == b.pixels@[i] by {
        assert(w >= 1 && h >= 1) by (nonlinear_arith)
            requires
                0 <= i < 4 * w * h,
                0 <= w,
                0 <= h,
        ;
        let c = i % 4;
        let p = i / 4;
        let x = p % w;
        let y = p / w;
        lemma_fundamental_div_mod(i, 4);
        lemma_mod_bound(i, 4);
        lemma_fundamental_div_mod(p, w);
        lemma_mod_bound(p, w);
        assert(p < w * h) by (nonlinear_arith)
            requires
                i < 4 * w * h,
                p == i / 4,
                i == 4 * p + c,
                0 <= c < 4,
        ;
        lemma_multiply_divide_lt(p, w, h);
        assert(4 * (y * w + x) + c == i) by (nonlinear_arith)
            requires
                i == 4 * p + c,
                p == w * y + x,
        ;
        assert(a.chan(x, y, c) == b.chan(x, y, c));
    }
    assert(a.pixels@ =~= b.pixels@);
}

} // verus!
