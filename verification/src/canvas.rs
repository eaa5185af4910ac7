//! An unbounded sparse canvas: only painted pixels are stored.

use crate::color::Rgb;
use std::collections::HashMap;
use vstd::prelude::*;
use vstd::std_specs::hash::spec_keys_iter;
use vstd::std_specs::iter::IteratorSpec;

verus! {

broadcast use vstd::std_specs::hash::group_hash_axioms;

/// The key under which the pixel at `(x, y)` is stored: `x * 65536 + y`.
pub open spec fn spec_pixel_key(x: u16, y: u16) -> u32 {
    (x * 65536 + y) as u32
}

/// The column that a stored key denotes.
pub open spec fn spec_key_x(k: u32) -> u16 {
    (k / 65536) as u16
}

/// The row that a stored key denotes.
pub open spec fn spec_key_y(k: u32) -> u16 {
    (k % 65536) as u16
}

/// Encoding a coordinate pair as a key and decoding it again are inverse.
pub proof fn lemma_pixel_key_roundtrip(x: u16, y: u16, k: u32)
    ensures
        spec_key_x(spec_pixel_key(x, y)) == x,
        spec_key_y(spec_pixel_key(x, y)) == y,
        spec_pixel_key(spec_key_x(k), spec_key_y(k)) == k,
{
}

/// Computes the key of `(x, y)`.
fn pixel_key(x: u16, y: u16) -> (k: u32)
    ensures
        k == spec_pixel_key(x, y),
{
    (x as u32) * 65536 + (y as u32)
}

/// The canvas: a map from painted coordinates to their colours.
/// A coordinate absent from the map is an empty pixel.
pub struct Canvas {
    pixels: HashMap<u32, Rgb>,
}

impl View for Canvas {
    type V = Map<(u16, u16), Rgb>;

    closed spec fn view(&self) -> Map<(u16, u16), Rgb> {
        Map::new(
            |p: (u16, u16)| self.pixels@.contains_key(spec_pixel_key(p.0, p.1)),
            |p: (u16, u16)| self.pixels@[spec_pixel_key(p.0, p.1)],
        )
    }
}

/// The colour at `p` in a canvas model, `None` for an empty pixel.
pub open spec fn spec_pixel_at(m: Map<(u16, u16), Rgb>, p: (u16, u16)) -> Option<Rgb> {
    if m.contains_key(p) {
        Some(m[p])
    } else {
        None
    }
}

/// A canvas model with the pixel at `p` set to `c` (`None` erases it).
pub open spec fn spec_with_pixel(m: Map<(u16, u16), Rgb>, p: (u16, u16), c: Option<Rgb>) -> Map<
    (u16, u16),
    Rgb,
> {
    match c {
        Some(rgb) => m.insert(p, rgb),
        None => m.remove(p),
    }
}

/// `bb = (min_x, min_y, max_x, max_y)` is the tightest box around the painted
/// pixels of `m`: every pixel lies inside it and each of its four edges is
/// touched by some pixel.
pub open spec fn spec_is_bounding_box(m: Map<(u16, u16), Rgb>, bb: (u16, u16, u16, u16)) -> bool {
    &&& forall|p: (u16, u16)|
        #[trigger] m.contains_key(p) ==> bb.0 <= p.0 <= bb.2 && bb.1 <= p.1 <= bb.3
    &&& exists|p: (u16, u16)| #[trigger] m.contains_key(p) && p.0 == bb.0
    &&& exists|p: (u16, u16)| #[trigger] m.contains_key(p) && p.1 == bb.1
    &&& exists|p: (u16, u16)| #[trigger] m.contains_key(p) && p.0 == bb.2
    &&& exists|p: (u16, u16)| #[trigger] m.contains_key(p) && p.1 == bb.3
}

/// Whether a canvas model holds no painted pixel.
pub open spec fn spec_is_blank(m: Map<(u16, u16), Rgb>) -> bool {
    forall|p: (u16, u16)| !#[trigger] m.contains_key(p)
}

/// A pixel reads back the colour it was last set to, and setting a pixel
/// leaves every other pixel as it was.
pub proof fn law_get_after_set(m: Map<(u16, u16), Rgb>, p: (u16, u16), c: Option<Rgb>, q: (u16, u16))
    ensures
        spec_pixel_at(spec_with_pixel(m, p, c), p) == c,
        q != p ==> spec_pixel_at(spec_with_pixel(m, p, c), q) == spec_pixel_at(m, q),
{
}

impl Canvas {
    /// The raw stored map (keys as in `spec_pixel_key`).
    pub closed spec fn raw(&self) -> Map<u32, Rgb> {
        self.pixels@
    }

    /// An empty canvas.
    pub fn new() -> (c: Self)
        ensures
            c@ == Map::<(u16, u16), Rgb>::empty(),
    {
        let c = Canvas { pixels: HashMap::new() };
        assert(c@ =~= Map::<(u16, u16), Rgb>::empty());
        c
    }

    /// The colour at `(x, y)`, or `None` for an empty pixel.
    pub fn get_pixel(&self, x: u16, y: u16) -> (r: Option<Rgb>)
        ensures
            r == spec_pixel_at(self@, (x, y)),
    {
        let k = pixel_key(x, y);
        match self.pixels.get(&k) {
            Some(c) => Some(*c),
            None => None,
        }
    }

    /// Paints `(x, y)` with `color`; `None` erases the pixel.
    pub fn set_pixel(&mut self, x: u16, y: u16, color: Option<Rgb>)
        ensures
            final(self)@ == spec_with_pixel(old(self)@, (x, y), color),
    {
        let k = pixel_key(x, y);
        match color {
            Some(c) => {
                self.pixels.insert(k, c);
            },
            None => {
                self.pixels.remove(&k);
            },
        }
        proof {
            assert forall|p: (u16, u16)| #[trigger] self@.contains_key(p) == spec_with_pixel(old(self)@, (x, y), color).contains_key(p) by {
                lemma_pixel_key_roundtrip(p.0, p.1, 0);
                lemma_pixel_key_roundtrip(x, y, 0);
            }
            assert(self@ =~= spec_with_pixel(old(self)@, (x, y), color));
        }
    }

    /// Every stored key denotes a painted pixel of the model, and conversely.
    proof fn lemma_raw_matches_view(&self)
        ensures
            forall|k: u32| #[trigger] self.raw().contains_key(k) ==> self@.contains_key((spec_key_x(k), spec_key_y(k))) && self@[(spec_key_x(k), spec_key_y(k))] == self.raw()[k],
            forall|p: (u16, u16)| #[trigger] self@.contains_key(p) ==> self.raw().contains_key(spec_pixel_key(p.0, p.1)),
    {
        assert forall|k: u32| #[trigger] self.raw().contains_key(k) implies self@.contains_key((spec_key_x(k), spec_key_y(k))) && self@[(spec_key_x(k), spec_key_y(k))] == self.raw()[k] by {
            lemma_pixel_key_roundtrip(0, 0, k);
        }
    }

    /// Removes every pixel.
    pub fn clear(&mut self)
        ensures
            final(self)@ == Map::<(u16, u16), Rgb>::empty(),
    {
        self.pixels.clear();
        assert(self@ =~= Map::<(u16, u16), Rgb>::empty());
    }

    /// Whether no pixel is painted.
    pub fn is_empty(&self) -> (r: bool)
        ensures
            r == spec_is_blank(self@),
            r <==> self@ == Map::<(u16, u16), Rgb>::empty(),
    {
        proof {
            self.lemma_raw_matches_view();
        }
        let r = self.pixels.is_empty();
        proof {
            if r {
                assert(self@ =~= Map::<(u16, u16), Rgb>::empty());
            } else {
                let k = choose|k: u32| self.raw().contains_key(k);
                assert(self@.contains_key((spec_key_x(k), spec_key_y(k))));
            }
        }
        r
    }

    /// The stored pixel map, keyed by `x * 65536 + y`.
    pub fn pixels(&self) -> (r: &HashMap<u32, Rgb>)
        ensures
            forall|x: u16, y: u16| #[trigger] r@.contains_key(spec_pixel_key(x, y)) == self@.contains_key((x, y)),
            forall|x: u16, y: u16| self@.contains_key((x, y)) ==> #[trigger] r@[spec_pixel_key(x, y)] == self@[(x, y)],
            forall|k: u32| #[trigger] r@.contains_key(k) ==> k == spec_pixel_key(spec_key_x(k), spec_key_y(k)),
    {
        proof {
            assert forall|k: u32| #[trigger] self.pixels@.contains_key(k) implies k == spec_pixel_key(spec_key_x(k), spec_key_y(k)) by {
                lemma_pixel_key_roundtrip(0, 0, k);
            }
        }
        &self.pixels
    }

    /// The box `(min_x, min_y, max_x, max_y)` around all painted pixels, or
    /// `None` when nothing is painted.
    pub fn bounding_box(&self) -> (r: Option<(u16, u16, u16, u16)>)
        ensures
            r is None <==> spec_is_blank(self@),
            r matches Some(bb) ==> spec_is_bounding_box(self@, bb),
    {
        if self.is_empty() {
            return None;
        }
        proof {
            self.lemma_raw_matches_view();
        }
        let mut min_x: u16 = u16::MAX;
        let mut min_y: u16 = u16::MAX;
        let mut max_x: u16 = 0;
        let mut max_y: u16 = 0;
        let ghost m = self.raw();
        let ghost ks = spec_keys_iter(&self.pixels).remaining();
        let ghost mut n: int = 0;
        for kr in it: self.pixels.keys()
            invariant
                m == self.raw(),
                ks == it.seq(),
                n == it.index(),
                ks.unref().to_set() == m.dom(),
                0 <= n <= ks.len(),
                forall|i: int| 0 <= i < n ==> min_x <= spec_key_x(*#[trigger] ks[i]) <= max_x && min_y <= spec_key_y(*ks[i]) <= max_y,
                n == 0 ==> min_x == u16::MAX && min_y == u16::MAX && max_x == 0 && max_y == 0,
                n > 0 ==> exists|i: int| 0 <= i < n && spec_key_x(*#[trigger] ks[i]) == min_x,
                n > 0 ==> exists|i: int| 0 <= i < n && spec_key_y(*#[trigger] ks[i]) == min_y,
                n > 0 ==> exists|i: int| 0 <= i < n && spec_key_x(*#[trigger] ks[i]) == max_x,
                n > 0 ==> exists|i: int| 0 <= i < n && spec_key_y(*#[trigger] ks[i]) == max_y,
        {
            let k: u32 = *kr;
            let x: u16 = (k / 65536) as u16;
            let y: u16 = (k % 65536) as u16;
            if x < min_x {
                min_x = x;
            }
            if y < min_y {
                min_y = y;
            }
            if x > max_x {
                max_x = x;
            }
            if y > max_y {
                max_y = y;
            }
            proof {
                n = n + 1;
            }
        }
        proof {
            assert(n == ks.len());
            let ghost bb = (min_x, min_y, max_x, max_y);
            assert forall|p: (u16, u16)| #[trigger] self@.contains_key(p) implies bb.0 <= p.0 <= bb.2 && bb.1 <= p.1 <= bb.3 by {
                let k = spec_pixel_key(p.0, p.1);
                lemma_pixel_key_roundtrip(p.0, p.1, k);
                assert(ks.unref().to_set().contains(k));
                let i = choose|i: int| 0 <= i < ks.unref().len() && ks.unref()[i] == k;
                assert(*ks[i] == k);
            }
            let i0 = choose|i: int| 0 <= i < n && spec_key_x(*#[trigger] ks[i]) == min_x;
            let i1 = choose|i: int| 0 <= i < n && spec_key_y(*#[trigger] ks[i]) == min_y;
            let i2 = choose|i: int| 0 <= i < n && spec_key_x(*#[trigger] ks[i]) == max_x;
            let i3 = choose|i: int| 0 <= i < n && spec_key_y(*#[trigger] ks[i]) == max_y;
            assert(ks.unref()[i0] == *ks[i0]);
            assert(ks.unref()[i1] == *ks[i1]);
            assert(ks.unref()[i2] == *ks[i2]);
            assert(ks.unref()[i3] == *ks[i3]);
            assert(ks.unref().to_set().contains(ks.unref()[i0]));
            assert(ks.unref().to_set().contains(ks.unref()[i1]));
            assert(ks.unref().to_set().contains(ks.unref()[i2]));
            assert(ks.unref().to_set().contains(ks.unref()[i3]));
            let k0 = *ks[i0];
            let k1 = *ks[i1];
            let k2 = *ks[i2];
            let k3 = *ks[i3];
            assert(self@.contains_key((spec_key_x(k0), spec_key_y(k0))));
            assert(self@.contains_key((spec_key_x(k1), spec_key_y(k1))));
            assert(self@.contains_key((spec_key_x(k2), spec_key_y(k2))));
            assert(self@.contains_key((spec_key_x(k3), spec_key_y(k3))));
        }
        Some((min_x, min_y, max_x, max_y))
    }
}

} // verus!
