use vstd::prelude::*;
use std::collections::HashMap;
use crate::color::{Color, dist2, dist2_exec, lemma_dist2_nonneg, lemma_dist2_zero};
use crate::palette::{palette, palette_seq, PALETTE_SIZE};

verus! {

broadcast use vstd::std_specs::hash::group_hash_axioms;

/// Index of the first minimum of `dist2(c, _)` over the palette prefix of
/// length `n`.
pub open spec fn best_in_prefix(c: Color, n: int) -> int
    recommends
        1 <= n <= palette_seq().len(),
    decreases n,
{
    if n <= 1 {
        0
    } else {
        let prev = best_in_prefix(c, n - 1);
        if dist2(c, palette_seq()[n - 1]) < dist2(c, palette_seq()[prev]) {
            n - 1
        } else {
            prev
        }
    }
}

/// Index of the palette entry nearest to `c`, the earliest on ties.
pub open spec fn nearest_index(c: Color) -> int {
    best_in_prefix(c, palette_seq().len() as int)
}

/// The palette entry nearest to `c` under squared Euclidean distance, the
/// earliest in palette order on ties.
pub open spec fn nearest_spec(c: Color) -> Color {
    palette_seq()[nearest_index(c)]
}

proof fn lemma_best_in_prefix(c: Color, n: int)
    requires
        1 <= n <= palette_seq().len(),
    ensures
        0 <= best_in_prefix(c, n) < n,
        forall|j: int|
            0 <= j < n ==> dist2(c, palette_seq()[best_in_prefix(c, n)]) <= dist2(
                c,
                #[trigger] palette_seq()[j],
            ),
        forall|j: int|
            0 <= j < best_in_prefix(c, n) ==> dist2(c, #[trigger] palette_seq()[j]) > dist2(
                c,
                palette_seq()[best_in_prefix(c, n)],
            ),
    decreases n,
{
    if n > 1 {
        lemma_best_in_prefix(c, n - 1);
    }
}

/// The nearest entry minimizes the distance over the whole palette, and every
/// earlier entry is strictly farther: of equidistant candidates the one with
/// the lower palette index is the one returned.
pub proof fn lemma_nearest_first_min(c: Color)
    ensures
        0 <= nearest_index(c) < palette_seq().len(),
        nearest_spec(c) == palette_seq()[nearest_index(c)],
        forall|j: int|
            0 <= j < palette_seq().len() ==> dist2(c, nearest_spec(c)) <= dist2(
                c,
                #[trigger] palette_seq()[j],
            ),
        forall|j: int|
            0 <= j < nearest_index(c) ==> dist2(c, #[trigger] palette_seq()[j]) > dist2(
                c,
                nearest_spec(c),
            ),
{
    lemma_best_in_prefix(c, palette_seq().len() as int);
}

/// Every input maps to a member of the palette.
pub proof fn lemma_nearest_in_palette(c: Color)
    ensures
        palette_seq().contains(nearest_spec(c)),
{
    lemma_nearest_first_min(c);
}

/// Each palette color is its own nearest entry: distance zero beats every
/// other candidate.
pub proof fn lemma_nearest_fixes_palette(c: Color)
    requires
        palette_seq().contains(c),
    ensures
        nearest_spec(c) == c,
{
    lemma_nearest_first_min(c);
    lemma_dist2_zero(c, c);
    let i = choose|i: int| 0 <= i < palette_seq().len() && palette_seq()[i] == c;
    assert(dist2(c, nearest_spec(c)) <= dist2(c, palette_seq()[i]));
    lemma_dist2_nonneg(c, nearest_spec(c));
    lemma_dist2_zero(c, nearest_spec(c));
}

/// Finds the nearest palette color by scanning the palette in order and
/// keeping the first index that attains the minimum squared distance.
pub fn nearest(c: Color) -> (r: Color)
    ensures
        r == nearest_spec(c),
        palette_seq().contains(r),
{
    let pal = palette();
    let mut best: usize = 0;
    let mut best_d: i32 = dist2_exec(c, pal[0]);
    let mut i: usize = 1;
    while i < PALETTE_SIZE
        invariant
            1 <= i <= PALETTE_SIZE,
            pal@ == palette_seq(),
            pal@.len() == PALETTE_SIZE,
            best == best_in_prefix(c, i as int),
            0 <= best < i,
            best_d == dist2(c, palette_seq()[best as int]),
        decreases PALETTE_SIZE - i,
    {
        let d = dist2_exec(c, pal[i]);
        if d < best_d {
            best = i;
            best_d = d;
        }
        i = i + 1;
    }
    proof {
        lemma_nearest_in_palette(c);
    }
    pal[best]
}

/// Packs the three channels of a color into one cache key.
pub open spec fn color_key(c: Color) -> u32 {
    ((c.r as u32) << 16) | ((c.g as u32) << 8) | (c.b as u32)
}

/// Distinct colors pack to distinct keys.
proof fn lemma_color_key_injective(c1: Color, c2: Color)
    requires
        color_key(c1) == color_key(c2),
    ensures
        c1 == c2,
{
    let (r1, g1, b1) = (c1.r, c1.g, c1.b);
    let (r2, g2, b2) = (c2.r, c2.g, c2.b);
    assert(r1 == r2 && g1 == g2 && b1 == b2) by (bit_vector)
        requires
            ((r1 as u32) << 16) | ((g1 as u32) << 8) | (b1 as u32) == ((r2 as u32) << 16) | ((
            g2 as u32) << 8) | (b2 as u32),
    ;
}

fn color_key_exec(c: Color) -> (k: u32)
    ensures
        k == color_key(c),
{
    ((c.r as u32) << 16) | ((c.g as u32) << 8) | (c.b as u32)
}

/// Nearest-color search with a memoization cache: a map from packed input
/// color to its nearest palette entry. A cache hit and a cache miss return
/// the same value, so the cache affects only performance.
pub struct Quantizer {
    cache: HashMap<u32, Color>,
}

impl View for Quantizer {
    type V = Map<u32, Color>;

    /// A quantizer is modelled by its cache contents: packed key to cached
    /// nearest color.
    closed spec fn view(&self) -> Map<u32, Color> {
        self.cache@
    }
}

impl Quantizer {
    /// Every cached entry is the nearest palette color of its key.
    pub open spec fn wf(self) -> bool {
        forall|c: Color|
            #[trigger] self@.contains_key(color_key(c)) ==> self@[color_key(c)] == nearest_spec(c)
    }

    /// Starts with an empty cache.
    pub fn new() -> (q: Quantizer)
        ensures
            q.wf(),
            q@ == Map::<u32, Color>::empty(),
    {
        Quantizer { cache: HashMap::new() }
    }

    /// Returns the nearest palette color of `c`, from the cache when present,
    /// computed and stored otherwise; either way the result is the same.
    pub fn nearest_memo(&mut self, c: Color) -> (r: Color)
        requires
            old(self).wf(),
        ensures
            final(self).wf(),
            r == nearest_spec(c),
            palette_seq().contains(r),
    {
        let key = color_key_exec(c);
        match self.cache.get(&key) {
            Some(v) => {
                proof {
                    assert(self@.contains_key(color_key(c)));
                    lemma_nearest_in_palette(c);
                }
                *v
            },
            None => {
                let r = nearest(c);
                self.cache.insert(key, r);
                proof {
                    assert(self@ == old(self)@.insert(key, r));
                    assert forall|c2: Color| #[trigger]
                        self@.contains_key(color_key(c2)) implies self@[color_key(c2)]
                        == nearest_spec(c2) by {
                        if color_key(c2) == key {
                            lemma_color_key_injective(c2, c);
                        } else {
                            assert(old(self)@.contains_key(color_key(c2)));
                        }
                    }
                }
                r
            },
        }
    }
}

/// Quantization is deterministic across cache states: whatever two caches
/// hold for the same input color, they hold the computed nearest color, so
/// cache-cold and cache-warm calls agree.
pub proof fn lemma_cache_agrees(q1: Quantizer, q2: Quantizer, c: Color)
    requires
        q1.wf(),
        q2.wf(),
        q1@.contains_key(color_key(c)),
        q2@.contains_key(color_key(c)),
    ensures
        q1@[color_key(c)] == q2@[color_key(c)],
        q1@[color_key(c)] == nearest_spec(c),
{
}

/// The cache never maps a color to anything outside the palette.
pub proof fn lemma_cache_in_palette(q: Quantizer, c: Color)
    requires
        q.wf(),
        q@.contains_key(color_key(c)),
    ensures
        palette_seq().contains(q@[color_key(c)]),
{
    lemma_nearest_in_palette(c);
}

} // verus!
