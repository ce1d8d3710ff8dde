//! Cache of drawing contexts, one per color.
//!
//! A drawing context is a resource of the display server, known here by its
//! id. The cache only grows: a color keeps the context it was first given
//! for as long as the cache lives.

use crate::xft::RGBA;
use std::collections::HashMap;
use vstd::prelude::*;

verus! {

/// The pixel value of a color: alpha in the high byte, then red, green and
/// blue.
pub open spec fn packed(rgba: RGBA) -> int {
    rgba.3 * 0x100_0000 + rgba.0 * 0x1_0000 + rgba.1 * 0x100 + rgba.2
}

/// Different colors have different pixel values.
pub proof fn lemma_packed_injective(a: RGBA, b: RGBA)
    ensures
        packed(a) == packed(b) <==> a == b,
        0 <= packed(a) <= u32::MAX,
{
}

/// The pixel value that a drawing context of this color is created with.
pub fn pack_color(rgba: RGBA) -> (pixel: u32)
    ensures
        pixel == packed(rgba),
{
    let r: u32 = rgba.0 as u32;
    let g: u32 = rgba.1 as u32;
    let b: u32 = rgba.2 as u32;
    let a: u32 = rgba.3 as u32;
    assert((b | g << 8 | r << 16 | a << 24) == a * 0x100_0000 + r * 0x1_0000 + g * 0x100 + b)
        by (bit_vector)
        requires
            r < 256,
            g < 256,
            b < 256,
            a < 256,
    ;
    b | g << 8 | r << 16 | a << 24
}

/// The drawing contexts created so far, by color.
pub struct ColorCache {
    contexts: HashMap<u32, u32>,
}

impl View for ColorCache {
    type V = Map<RGBA, u32>;

    /// The context of each cached color.
    closed spec fn view(&self) -> Map<RGBA, u32> {
        Map::new(
            |rgba: RGBA| self.contexts@.contains_key(packed(rgba) as u32),
            |rgba: RGBA| self.contexts@[packed(rgba) as u32],
        )
    }
}

impl ColorCache {
    /// A cache without contexts.
    pub fn new() -> (cache: ColorCache)
        ensures
            cache@ == Map::<RGBA, u32>::empty(),
    {
        let cache = ColorCache { contexts: HashMap::new() };
        assert(cache@ =~= Map::<RGBA, u32>::empty());
        cache
    }

    /// Whether a context was cached for `rgba`.
    pub fn contains(&self, rgba: RGBA) -> (cached: bool)
        ensures
            cached == self@.contains_key(rgba),
    {
        let key: u32 = pack_color(rgba);
        self.contexts.contains_key(&key)
    }

    /// The context of `rgba`, if one was cached.
    pub fn find_color(&self, rgba: RGBA) -> (gc: Option<u32>)
        ensures
            gc == if self@.contains_key(rgba) {
                Some(self@[rgba])
            } else {
                None
            },
    {
        let key: u32 = pack_color(rgba);
        match self.contexts.get(&key) {
            Some(gc) => Some(*gc),
            None => None,
        }
    }

    /// The context of a color that was cached before.
    pub fn get_color(&self, rgba: RGBA) -> (gc: u32)
        requires
            self@.contains_key(rgba),
        ensures
            gc == self@[rgba],
    {
        let key: u32 = pack_color(rgba);
        match self.contexts.get(&key) {
            Some(gc) => *gc,
            None => 0,
        }
    }

    /// Caches `gc` as the context of `rgba`, unless the color has a context
    /// already; says whether `gc` was taken. No other color is touched.
    pub fn cache_color(&mut self, rgba: RGBA, gc: u32) -> (taken: bool)
        ensures
            taken == !old(self)@.contains_key(rgba),
            final(self)@ == if taken {
                old(self)@.insert(rgba, gc)
            } else {
                old(self)@
            },
    {
        let key: u32 = pack_color(rgba);
        if self.contexts.contains_key(&key) {
            false
        } else {
            self.contexts.insert(key, gc);
            proof {
                assert forall|other: RGBA| packed(other) == packed(rgba) implies other == rgba by {
                    lemma_packed_injective(other, rgba);
                }
                assert(self@ =~= old(self)@.insert(rgba, gc));
            }
            true
        }
    }
}

} // verus!
