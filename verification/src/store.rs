//! The shared application state: the list of sprites the front end has
//! created in memory. The commands share one store across invocations;
//! the lock around it belongs to the application shell.

use vstd::prelude::*;

use crate::sprite::Sprite;

verus! {

/// Creates a blank, fully transparent sprite: every channel of every
/// pixel is zero.
pub fn blank_sprite(width: u32, height: u32) -> (r: Sprite)
    requires
        4 * (width as int) * (height as int) <= usize::MAX,
    ensures
        r.wf(),
        r.width == width,
        r.height == height,
        forall|i: int| 0 <= i < r.pixels@.len() ==> r.pixels@[i] == 0,
{
    proof {
        assert(4 * (width as int) * (height as int) == 4 * ((width as int) * (height as int)))
            by (nonlinear_arith);
        assert((width as int) * (height as int) >= 0) by (nonlinear_arith);
    }
    let total: usize = 4 * ((width as usize) * (height as usize));
    let mut pixels: Vec<u8> = Vec::new();
    let mut i: usize = 0;
    while i < total
        invariant
            i <= total,
            pixels@.len() == i,
            forall|j: int| 0 <= j < i ==> pixels@[j] == 0,
        decreases total - i,
    {
        pixels.push(0);
        i = i + 1;
    }
    proof {
        assert(4 * ((width as int) * (height as int)) == 4 * (width as int) * (height as int))
            by (nonlinear_arith);
    }
    Sprite { width, height, pixels }
}

/// The list of in-memory sprites, in the order they were created.
pub struct SpriteStore {
    pub sprites: Vec<Sprite>,
}

impl SpriteStore {
    /// Every sprite held by the store has a buffer that matches its
    /// dimensions.
    pub open spec fn wf(self) -> bool {
        forall|i: int| 0 <= i < self.sprites@.len() ==> (#[trigger] self.sprites@[i]).wf()
    }

    /// A store that holds no sprites yet.
    pub fn new() -> (r: SpriteStore)
        ensures
            r.wf(),
            r.sprites@.len() == 0,
    {
        SpriteStore { sprites: Vec::new() }
    }

    /// Appends a sprite and returns its index in the store.
    pub fn add(&mut self, s: Sprite) -> (idx: usize)
        requires
            s.wf(),
            old(self).wf(),
        ensures
            final(self).wf(),
            final(self).sprites@ == old(self).sprites@.push(s),
            idx == old(self).sprites@.len(),
    {
        let idx = self.sprites.len();
        self.sprites.push(s);
        idx
    }

    /// How many sprites the store holds.
    pub fn count(&self) -> (n: usize)
        ensures
            n == self.sprites@.len(),
    {
        self.sprites.len()
    }

    /// The sprite at index `idx`.
    pub fn get(&self, idx: usize) -> (r: &Sprite)
        requires
            idx < self.sprites@.len(),
        ensures
            *r == self.sprites@[idx as int],
    {
        &self.sprites[idx]
    }
}

} // verus!
