//! The 64x32 monochrome framebuffer that sprites are XOR-blitted onto.
//!
//! Pixel `(x, y)` lives at index `y * 64 + x`.  A sprite is a sequence of
//! bytes, each byte one 8-pixel-wide row, blitted with wraparound on both
//! axes; a draw reports a collision when it turns some lit pixel off.
//! Putting the blit on the window is a renderer's job, outside this crate.

use vstd::prelude::*;
use vstd::arithmetic::div_mod::lemma_fundamental_div_mod;
use vstd::arithmetic::div_mod::lemma_fundamental_div_mod_converse;
use vstd::arithmetic::div_mod::lemma_mod_bound;
use vstd::arithmetic::div_mod::lemma_mod_multiples_vanish;
use vstd::arithmetic::div_mod::lemma_small_mod;

verus! {

/// Outcome of blitting one sprite.
#[derive(Clone, Copy, Debug, PartialEq, Eq, Structural)]
pub enum DrawResult {
    Collision,
    Success,
}

/// The framebuffer: 2048 pixels, row-major.
pub struct Screen {
    pixels: Vec<bool>,
}

impl View for Screen {
    type V = Seq<bool>;

    closed spec fn view(&self) -> Seq<bool> {
        self.pixels@
    }
}

/// An all-dark framebuffer.
pub open spec fn blank_screen() -> Seq<bool> {
    Seq::new(2048, |p: int| false)
}

/// The sprite row that lands on pixel `p` of a draw at vertical offset
/// `y`: the unique `i` in `[0, 32)` with `(y + i) % 32 == p / 64`.
pub open spec fn sprite_row(y: u8, p: int) -> int {
    (p / 64 - y) % 32
}

/// The sprite column that lands on pixel `p` of a draw at horizontal
/// offset `x`: the unique `j` in `[0, 64)` with `(x + j) % 64 == p % 64`.
pub open spec fn sprite_col(x: u8, p: int) -> int {
    (p % 64 - x) % 64
}

/// Bit `j` of sprite row `i`, most significant bit leftmost.
pub open spec fn sprite_bit(sprite: Seq<u8>, i: int, j: int) -> bool {
    (sprite[i] >> ((7 - j) as u8)) & 1 == 1
}

/// Whether a draw of `sprite` at `(x, y)` flips pixel `p`: some sprite
/// cell lands on `p` and its bit is set.
pub open spec fn draw_flips(x: u8, y: u8, sprite: Seq<u8>, p: int) -> bool {
    sprite_row(y, p) < sprite.len() && sprite_col(x, p) < 8 && sprite_bit(
        sprite,
        sprite_row(y, p),
        sprite_col(x, p),
    )
}

/// The framebuffer after XOR-blitting `sprite` at `(x, y)`.
pub open spec fn spec_draw(s: Seq<bool>, x: u8, y: u8, sprite: Seq<u8>) -> Seq<bool> {
    Seq::new(s.len(), |p: int| s[p] != draw_flips(x, y, sprite, p))
}

/// Whether XOR-blitting `sprite` at `(x, y)` turns some lit pixel off.
pub open spec fn spec_collision(s: Seq<bool>, x: u8, y: u8, sprite: Seq<u8>) -> bool {
    exists|p: int| 0 <= p < s.len() && s[p] && #[trigger] draw_flips(x, y, sprite, p)
}

/// Like `draw_flips`, but counting only the sprite cells a row-major blit
/// has already visited: those before row `i`, or in row `i` before column
/// `j`.
spec fn flips_upto(x: u8, y: u8, sprite: Seq<u8>, p: int, i: int, j: int) -> bool {
    let si = sprite_row(y, p);
    let sj = sprite_col(x, p);
    si < sprite.len() && sj < 8 && (si < i || (si == i && sj < j)) && sprite_bit(sprite, si, sj)
}

/// Like `spec_collision`, restricted to the visited sprite cells.
spec fn collision_upto(s: Seq<bool>, x: u8, y: u8, sprite: Seq<u8>, i: int, j: int) -> bool {
    exists|p: int| 0 <= p < s.len() && s[p] && #[trigger] flips_upto(x, y, sprite, p, i, j)
}

/// The screen index that sprite cell `(i, j)` of a draw at `(x, y)` lands
/// on.
pub open spec fn cell_index(x: u8, y: u8, i: int, j: int) -> int {
    ((y + i) % 32) * 64 + ((x + j) % 64)
}

/// Shifting into `[0, m)` by wrapping and shifting back out recovers the
/// offset: `((y + i) % m - y) % m == i`.
proof fn lemma_wrap_recover(y: int, i: int, m: int)
    requires
        0 < m,
        0 <= i < m,
    ensures
        ((y + i) % m - y) % m == i,
{
    let t = (y + i) % m;
    lemma_fundamental_div_mod(y + i, m);
    let q = (y + i) / m;
    assert(t - y == m * (-q) + i) by (nonlinear_arith)
        requires
            t == y + i - m * q,
    ;
    lemma_mod_multiples_vanish(-q, i, m);
    lemma_small_mod(i as nat, m as nat);
}

/// The wrapped position is recovered from the offset it maps to:
/// `(y + (r - y) % m) % m == r` for `r` in `[0, m)`.
proof fn lemma_wrap_recover_inv(y: int, r: int, m: int)
    requires
        0 < m,
        0 <= r < m,
    ensures
        (y + (r - y) % m) % m == r,
{
    let i = (r - y) % m;
    lemma_fundamental_div_mod(r - y, m);
    let q = (r - y) / m;
    assert(y + i == m * (-q) + r) by (nonlinear_arith)
        requires
            i == r - y - m * q,
    ;
    lemma_mod_multiples_vanish(-q, r, m);
    lemma_small_mod(r as nat, m as nat);
}

/// Each sprite cell lands on a pixel of its own, and the cell is
/// recovered from the pixel.
proof fn lemma_cell_index_props(x: u8, y: u8, i: int, j: int)
    requires
        0 <= i < 32,
        0 <= j < 8,
    ensures
        0 <= cell_index(x, y, i, j) < 2048,
        sprite_row(y, cell_index(x, y, i, j)) == i,
        sprite_col(x, cell_index(x, y, i, j)) == j,
{
    let row = (y + i) % 32;
    let col = (x + j) % 64;
    lemma_mod_bound(y + i, 32);
    lemma_mod_bound(x + j, 64);
    let p = row * 64 + col;
    lemma_fundamental_div_mod_converse(p, 64, row, col);
    lemma_wrap_recover(y as int, i, 32);
    lemma_wrap_recover(x as int, j, 64);
}

/// A pixel is hit by at most one sprite cell: the recovered cell's index
/// is the pixel itself.
proof fn lemma_pixel_determined(x: u8, y: u8, p: int)
    requires
        0 <= p < 2048,
    ensures
        0 <= sprite_row(y, p) < 32,
        0 <= sprite_col(x, p) < 64,
        cell_index(x, y, sprite_row(y, p), sprite_col(x, p)) == p,
{
    let r = p / 64;
    let c = p % 64;
    lemma_fundamental_div_mod(p, 64);
    lemma_mod_bound(p, 64);
    lemma_mod_bound(r - y, 32);
    lemma_mod_bound(c - x, 64);
    lemma_wrap_recover_inv(y as int, r, 32);
    lemma_wrap_recover_inv(x as int, c, 64);
}

/// Drawing a sprite with at least one set bit twice in a row: when the
/// first draw reports no collision, it has lit the pixel of every set
/// sprite bit, so repeating the same draw on the result collides.
pub proof fn lemma_redraw_collides(s: Seq<bool>, x: u8, y: u8, sprite: Seq<u8>)
    requires
        s.len() == 2048,
        sprite.len() <= 15,
        !spec_collision(s, x, y, sprite),
        exists|i: int, j: int|
            0 <= i < sprite.len() && 0 <= j < 8 && #[trigger] sprite_bit(sprite, i, j),
    ensures
        spec_collision(spec_draw(s, x, y, sprite), x, y, sprite),
{
    let (i, j) = choose|i: int, j: int|
        0 <= i < sprite.len() && 0 <= j < 8 && #[trigger] sprite_bit(sprite, i, j);
    lemma_cell_index_props(x, y, i, j);
    let p = cell_index(x, y, i, j);
    assert(draw_flips(x, y, sprite, p));
    assert(!s[p]) by {
        if s[p] {
            assert(spec_collision(s, x, y, sprite));
        }
    }
    assert(spec_draw(s, x, y, sprite)[p]);
}

impl Screen {
    /// The framebuffer holds exactly its 2048 pixels.
    pub open spec fn wf(self) -> bool {
        self@.len() == 2048
    }

    /// A dark framebuffer.
    pub fn new() -> (r: Screen)
        ensures
            r.wf(),
            r@ == blank_screen(),
    {
        let mut pixels: Vec<bool> = Vec::new();
        let mut k: usize = 0;
        while k < 2048
            invariant
                pixels@.len() == k,
                k <= 2048,
                forall|p: int| 0 <= p < k ==> !pixels@[p],
            decreases 2048 - k,
        {
            pixels.push(false);
            k = k + 1;
        }
        let r = Screen { pixels };
        proof {
            assert(r@ =~= blank_screen());
        }
        r
    }

    /// Turn every pixel off.
    pub fn clear(&mut self)
        requires
            old(self).wf(),
        ensures
            final(self).wf(),
            final(self)@ == blank_screen(),
    {
        let mut k: usize = 0;
        while k < 2048
            invariant
                self@.len() == 2048,
                k <= 2048,
                forall|p: int| 0 <= p < k ==> !self@[p],
            decreases 2048 - k,
        {
            self.pixels[k] = false;
            k = k + 1;
        }
        proof {
            assert(self@ =~= blank_screen());
        }
    }

    /// Read pixel `(x, y)`.
    pub fn get_pixel(&self, x: usize, y: usize) -> (r: bool)
        requires
            self.wf(),
            x < 64,
            y < 32,
        ensures
            r == self@[y * 64 + x],
    {
        self.pixels[y * 64 + x]
    }

    /// XOR-blit `sprite` at `(x, y)` with wraparound, reporting whether
    /// any lit pixel was turned off.
    pub fn draw_sprite(&mut self, x: u8, y: u8, sprite: &Vec<u8>) -> (r: DrawResult)
        requires
            old(self).wf(),
            sprite@.len() <= 15,
        ensures
            final(self).wf(),
            final(self)@ == spec_draw(old(self)@, x, y, sprite@),
            (r == DrawResult::Collision) <==> spec_collision(old(self)@, x, y, sprite@),
    {
        let ghost s0 = self@;
        let mut collision = false;
        let mut i: usize = 0;
        while i < sprite.len()
            invariant
                self@.len() == 2048,
                s0.len() == 2048,
                sprite@.len() <= 15,
                i <= sprite@.len(),
                forall|p: int|
                    0 <= p < 2048 ==> self@[p] == (s0[p] != flips_upto(
                        x,
                        y,
                        sprite@,
                        p,
                        i as int,
                        0,
                    )),
                collision == collision_upto(s0, x, y, sprite@, i as int, 0),
            decreases sprite@.len() - i,
        {
            let mut j: usize = 0;
            while j < 8
                invariant
                    self@.len() == 2048,
                    s0.len() == 2048,
                    sprite@.len() <= 15,
                    i < sprite@.len(),
                    j <= 8,
                    forall|p: int|
                        0 <= p < 2048 ==> self@[p] == (s0[p] != flips_upto(
                            x,
                            y,
                            sprite@,
                            p,
                            i as int,
                            j as int,
                        )),
                    collision == collision_upto(s0, x, y, sprite@, i as int, j as int),
                decreases 8 - j,
            {
                let ghost gi = i as int;
                let ghost gj = j as int;
                let row = ((y as usize) + i) % 32;
                let col = ((x as usize) + j) % 64;
                proof {
                    lemma_cell_index_props(x, y, gi, gj);
                }
                let idx = row * 64 + col;
                let ghost gidx = idx as int;
                let sbyte = sprite[i];
                let shift: u8 = (7 - j) as u8;
                let bit = ((sbyte >> shift) & 1) == 1;
                let cur = self.pixels[idx];
                proof {
                    assert(gidx == cell_index(x, y, gi, gj));
                    assert(bit == sprite_bit(sprite@, gi, gj));
                    // the current cell is not yet counted, so `cur` is
                    // the pixel as it was before the blit began
                    assert(!flips_upto(x, y, sprite@, gidx, gi, gj));
                    assert(cur == s0[gidx]);
                    // every other pixel's count is unchanged by this cell
                    assert forall|p: int| 0 <= p < 2048 && p != gidx implies flips_upto(
                        x,
                        y,
                        sprite@,
                        p,
                        gi,
                        gj + 1,
                    ) == flips_upto(x, y, sprite@, p, gi, gj) by {
                        if sprite_row(y, p) == gi && sprite_col(x, p) == gj {
                            lemma_pixel_determined(x, y, p);
                        }
                    }
                    assert(flips_upto(x, y, sprite@, gidx, gi, gj + 1) == sprite_bit(
                        sprite@,
                        gi,
                        gj,
                    ));
                }
                if cur && bit {
                    collision = true;
                }
                self.pixels[idx] = cur ^ bit;
                proof {
                    assert(self@[gidx] == (s0[gidx] != flips_upto(
                        x,
                        y,
                        sprite@,
                        gidx,
                        gi,
                        gj + 1,
                    )));
                    if collision {
                        if cur && bit {
                            assert(s0[gidx] && flips_upto(x, y, sprite@, gidx, gi, gj + 1));
                            assert(collision_upto(s0, x, y, sprite@, gi, gj + 1));
                        } else {
                            let p = choose|p: int|
                                0 <= p < s0.len() && s0[p] && #[trigger] flips_upto(
                                    x,
                                    y,
                                    sprite@,
                                    p,
                                    gi,
                                    gj,
                                );
                            assert(flips_upto(x, y, sprite@, p, gi, gj + 1));
                            assert(collision_upto(s0, x, y, sprite@, gi, gj + 1));
                        }
                    } else {
                        if collision_upto(s0, x, y, sprite@, gi, gj + 1) {
                            let p = choose|p: int|
                                0 <= p < s0.len() && s0[p] && #[trigger] flips_upto(
                                    x,
                                    y,
                                    sprite@,
                                    p,
                                    gi,
                                    gj + 1,
                                );
                            if p == gidx {
                                assert(cur && bit);
                            } else {
                                assert(flips_upto(x, y, sprite@, p, gi, gj));
                                assert(collision_upto(s0, x, y, sprite@, gi, gj));
                            }
                            assert(false);
                        }
                    }
                }
                j = j + 1;
            }
            proof {
                let gi = i as int;
                assert forall|p: int| 0 <= p < 2048 implies flips_upto(
                    x,
                    y,
                    sprite@,
                    p,
                    gi + 1,
                    0,
                ) == flips_upto(x, y, sprite@, p, gi, 8) by {}
                assert(collision_upto(s0, x, y, sprite@, gi + 1, 0) == collision_upto(
                    s0,
                    x,
                    y,
                    sprite@,
                    gi,
                    8,
                )) by {
                    if collision_upto(s0, x, y, sprite@, gi, 8) {
                        let p = choose|p: int|
                            0 <= p < s0.len() && s0[p] && #[trigger] flips_upto(
                                x,
                                y,
                                sprite@,
                                p,
                                gi,
                                8,
                            );
                        assert(flips_upto(x, y, sprite@, p, gi + 1, 0));
                    }
                    if collision_upto(s0, x, y, sprite@, gi + 1, 0) {
                        let p = choose|p: int|
                            0 <= p < s0.len() && s0[p] && #[trigger] flips_upto(
                                x,
                                y,
                                sprite@,
                                p,
                                gi + 1,
                                0,
                            );
                        assert(flips_upto(x, y, sprite@, p, gi, 8));
                    }
                }
            }
            i = i + 1;
        }
        proof {
            let n = sprite@.len() as int;
            assert forall|p: int| 0 <= p < 2048 implies flips_upto(x, y, sprite@, p, n, 0)
                == draw_flips(x, y, sprite@, p) by {}
            assert(self@ =~= spec_draw(s0, x, y, sprite@));
            assert(collision == spec_collision(s0, x, y, sprite@)) by {
                if collision {
                    let p = choose|p: int|
                        0 <= p < s0.len() && s0[p] && #[trigger] flips_upto(
                            x,
                            y,
                            sprite@,
                            p,
                            n,
                            0,
                        );
                    assert(draw_flips(x, y, sprite@, p));
                } else {
                    if spec_collision(s0, x, y, sprite@) {
                        let p = choose|p: int|
                            0 <= p < s0.len() && s0[p] && #[trigger] draw_flips(
                                x,
                                y,
                                sprite@,
                                p,
                            );
                        assert(flips_upto(x, y, sprite@, p, n, 0));
                        assert(false);
                    }
                }
            }
        }
        if collision {
            DrawResult::Collision
        } else {
            DrawResult::Success
        }
    }
}

} // verus!
