use vstd::prelude::*;

verus! {

/// Width of the framebuffer in pixels.
pub const WIDTH: usize = 64;

/// Height of the framebuffer in pixels.
pub const HEIGHT: usize = 32;

/// Number of pixels in the framebuffer.
pub const PIXELS: usize = 2048;

/// Bit `j` of a sprite row, counting from the most significant bit.
pub open spec fn sprite_bit(b: u8, j: int) -> bool {
    (b >> ((7 - j) as u8)) & 1u8 == 1u8
}

/// Whether the pixel at flat index `k` lies under a set bit of `rows`
/// drawn with its top-left corner at column `x`, row `y`, wrapping around
/// both edges of the screen.
pub open spec fn lit(rows: Seq<u8>, x: int, y: int, k: int) -> bool {
    let r = (k / 64 - y) % 32;
    let j = (k % 64 - x) % 64;
    r < rows.len() && j < 8 && sprite_bit(rows[r], j)
}

/// The framebuffer after XOR-compositing `rows` at (`x`, `y`).
pub open spec fn drawn(p: Seq<bool>, rows: Seq<u8>, x: int, y: int) -> Seq<bool> {
    Seq::new(p.len(), |k: int| p[k] != lit(rows, x, y, k))
}

/// Whether compositing `rows` at (`x`, `y`) turns some set pixel off.
pub open spec fn collides(p: Seq<bool>, rows: Seq<u8>, x: int, y: int) -> bool {
    exists|k: int| 0 <= k < p.len() && #[trigger] lit(rows, x, y, k) && p[k]
}

/// Whether the pixel at flat index `k` lies under one of the first `w` bits
/// of a single sprite row drawn at column `x` of screen row `y`.
pub open spec fn lit_bits(b: u8, x: int, y: int, k: int, w: int) -> bool {
    k / 64 == y && (k % 64 - x) % 64 < w && sprite_bit(b, (k % 64 - x) % 64)
}

proof fn lemma_row_index(x: int, y: int, i: int, k: int)
    requires
        0 <= x < 64,
        0 <= y < 32,
        0 <= i < 8,
        0 <= k < 2048,
    ensures
        (k == y * 64 + (x + i) % 64) <==> (k / 64 == y && (k % 64 - x) % 64 == i),
{
}

proof fn lemma_single_row(b: u8, x: int, y: int, k: int)
    requires
        0 <= x < 64,
        0 <= y < 32,
        0 <= k < 2048,
    ensures
        lit(seq![b], x, y, k) == lit_bits(b, x, y, k, 8),
{
}

proof fn lemma_row_wrap(y: int, r: int, k: int)
    requires
        0 <= y < 32,
        0 <= r < 32,
        0 <= k < 2048,
    ensures
        ((k / 64 - (y + r) % 32) % 32 < 1) <==> ((k / 64 - y) % 32 == r),
{
}

proof fn lemma_lit_split(rows: Seq<u8>, x: int, y: int, r: int, k: int)
    requires
        0 <= x < 64,
        0 <= y < 32,
        0 <= r < rows.len() <= 32,
        0 <= k < 2048,
    ensures
        lit(rows.take(r + 1), x, y, k) == (lit(rows.take(r), x, y, k) || lit(
            seq![rows[r]],
            x,
            (y + r) % 32,
            k,
        )),
        !(lit(rows.take(r), x, y, k) && lit(seq![rows[r]], x, (y + r) % 32, k)),
{
    lemma_row_wrap(y, r, k);
}

/// Drawing the first `r + 1` rows is drawing the first `r` and then row `r`
/// on its own, one screen row further down.
proof fn lemma_draw_step(p: Seq<bool>, rows: Seq<u8>, x: int, y: int, r: int)
    requires
        p.len() == 2048,
        0 <= x < 64,
        0 <= y < 32,
        0 <= r < rows.len() <= 32,
    ensures
        drawn(drawn(p, rows.take(r), x, y), seq![rows[r]], x, (y + r) % 32) == drawn(
            p,
            rows.take(r + 1),
            x,
            y,
        ),
        collides(p, rows.take(r + 1), x, y) == (collides(p, rows.take(r), x, y) || collides(
            drawn(p, rows.take(r), x, y),
            seq![rows[r]],
            x,
            (y + r) % 32,
        )),
{
    let q = drawn(p, rows.take(r), x, y);
    let b = seq![rows[r]];
    let yr = (y + r) % 32;
    assert forall|k: int| 0 <= k < 2048 implies #[trigger] drawn(q, b, x, yr)[k] == drawn(
        p,
        rows.take(r + 1),
        x,
        y,
    )[k] by {
        lemma_lit_split(rows, x, y, r, k);
    }
    assert(drawn(q, b, x, yr) =~= drawn(p, rows.take(r + 1), x, y));
    if collides(p, rows.take(r + 1), x, y) {
        let k = choose|k: int| 0 <= k < p.len() && #[trigger] lit(rows.take(r + 1), x, y, k) && p[k];
        lemma_lit_split(rows, x, y, r, k);
        if !lit(rows.take(r), x, y, k) {
            assert(lit(b, x, yr, k) && q[k]);
        }
    }
    if collides(q, b, x, yr) {
        let k = choose|k: int| 0 <= k < q.len() && #[trigger] lit(b, x, yr, k) && q[k];
        lemma_lit_split(rows, x, y, r, k);
        assert(lit(rows.take(r + 1), x, y, k));
    }
    if collides(p, rows.take(r), x, y) {
        let k = choose|k: int| 0 <= k < p.len() && #[trigger] lit(rows.take(r), x, y, k) && p[k];
        lemma_lit_split(rows, x, y, r, k);
        assert(lit(rows.take(r + 1), x, y, k));
    }
}

/// Drawing the same sprite at the same place twice leaves the screen as it
/// was, and the second drawing collides exactly where the sprite covers a
/// pixel that was off before the first.
pub proof fn lemma_draw_twice(p: Seq<bool>, rows: Seq<u8>, x: int, y: int)
    ensures
        drawn(drawn(p, rows, x, y), rows, x, y) == p,
        collides(drawn(p, rows, x, y), rows, x, y) == exists|k: int|
            0 <= k < p.len() && #[trigger] lit(rows, x, y, k) && !p[k],
{
    assert(drawn(drawn(p, rows, x, y), rows, x, y) =~= p);
}

/// Sprites wrap around the screen edges: bit `j` of row `r` lands on column
/// `(x + j) mod 64` of screen row `(y + r) mod 32`.
pub proof fn lemma_draw_wraps(rows: Seq<u8>, x: int, y: int, r: int, j: int)
    requires
        0 <= x < 64,
        0 <= y < 32,
        0 <= r < rows.len() <= 32,
        0 <= j < 8,
    ensures
        lit(rows, x, y, ((y + r) % 32) * 64 + (x + j) % 64) == sprite_bit(rows[r], j),
{
    let k = ((y + r) % 32) * 64 + (x + j) % 64;
    assert(k / 64 == (y + r) % 32 && k % 64 == (x + j) % 64);
}

/// The screen after drawing `rows` one after another, row `r` at column `x`
/// of screen row `(y + r) mod 32`.
pub open spec fn sprite_drawn(p: Seq<bool>, rows: Seq<u8>, x: int, y: int) -> Seq<bool>
    decreases rows.len(),
{
    if rows.len() == 0 {
        p
    } else {
        drawn(
            sprite_drawn(p, rows.drop_last(), x, y),
            seq![rows.last()],
            x,
            (y + rows.len() - 1) % 32,
        )
    }
}

/// Whether drawing `rows` one after another turns off a pixel that was on
/// when its row was drawn.
pub open spec fn sprite_collides(p: Seq<bool>, rows: Seq<u8>, x: int, y: int) -> bool
    decreases rows.len(),
{
    if rows.len() == 0 {
        false
    } else {
        sprite_collides(p, rows.drop_last(), x, y) || collides(
            sprite_drawn(p, rows.drop_last(), x, y),
            seq![rows.last()],
            x,
            (y + rows.len() - 1) % 32,
        )
    }
}

/// Whether the pixel at flat index `k` is toggled an odd number of times by
/// drawing `rows` one after another.
pub open spec fn toggled(rows: Seq<u8>, x: int, y: int, k: int) -> bool
    decreases rows.len(),
{
    if rows.len() == 0 {
        false
    } else {
        toggled(rows.drop_last(), x, y, k) != lit(
            seq![rows.last()],
            x,
            (y + rows.len() - 1) % 32,
            k,
        )
    }
}

/// Drawing a sprite flips exactly the pixels that its rows toggle an odd
/// number of times.
pub proof fn lemma_sprite_drawn_toggles(p: Seq<bool>, rows: Seq<u8>, x: int, y: int)
    ensures
        sprite_drawn(p, rows, x, y) == Seq::new(p.len(), |k: int| p[k] != toggled(rows, x, y, k)),
    decreases rows.len(),
{
    if rows.len() == 0 {
        assert(sprite_drawn(p, rows, x, y) =~= Seq::new(
            p.len(),
            |k: int| p[k] != toggled(rows, x, y, k),
        ));
    } else {
        lemma_sprite_drawn_toggles(p, rows.drop_last(), x, y);
        assert(sprite_drawn(p, rows, x, y) =~= Seq::new(
            p.len(),
            |k: int| p[k] != toggled(rows, x, y, k),
        ));
    }
}

/// Drawing the same sprite, of any height, at the same place twice leaves
/// the screen as it was.
pub proof fn lemma_sprite_drawn_twice(p: Seq<bool>, rows: Seq<u8>, x: int, y: int)
    ensures
        sprite_drawn(sprite_drawn(p, rows, x, y), rows, x, y) == p,
{
    let q = sprite_drawn(p, rows, x, y);
    lemma_sprite_drawn_toggles(p, rows, x, y);
    lemma_sprite_drawn_toggles(q, rows, x, y);
    assert(sprite_drawn(q, rows, x, y) =~= p);
}

/// A sprite of at most 32 rows covers each screen row at most once, so
/// drawing it row by row is the direct composite `drawn`, and it collides as
/// `collides` says.
pub proof fn lemma_sprite_drawn_direct(p: Seq<bool>, rows: Seq<u8>, x: int, y: int)
    requires
        p.len() == 2048,
        0 <= x < 64,
        0 <= y < 32,
        rows.len() <= 32,
    ensures
        sprite_drawn(p, rows, x, y) == drawn(p, rows, x, y),
        sprite_collides(p, rows, x, y) == collides(p, rows, x, y),
    decreases rows.len(),
{
    if rows.len() == 0 {
        assert(drawn(p, rows, x, y) =~= p);
        if collides(p, rows, x, y) {
            let k = choose|k: int| 0 <= k < p.len() && #[trigger] lit(rows, x, y, k) && p[k];
        }
    } else {
        let n = rows.len() - 1;
        assert(rows.drop_last() =~= rows.take(n));
        assert(rows.take(n + 1) =~= rows);
        lemma_sprite_drawn_direct(p, rows.drop_last(), x, y);
        lemma_draw_step(p, rows, x, y, n);
    }
}

/// A 64 by 32 monochrome framebuffer, stored row by row.
pub struct Display {
    pixels: Vec<bool>,
}

impl View for Display {
    type V = Seq<bool>;

    closed spec fn view(&self) -> Seq<bool> {
        self.pixels@
    }
}

impl Display {
    pub open spec fn wf(&self) -> bool {
        self@.len() == PIXELS
    }

    /// A blank screen.
    pub fn new() -> (r: Display)
        ensures
            r.wf(),
            r@ == Seq::new(PIXELS as nat, |k: int| false),
    {
        let pixels = vec![false; PIXELS];
        assert(pixels@ =~= Seq::new(PIXELS as nat, |k: int| false));
        Display { pixels }
    }

    /// Turns every pixel off.
    pub fn clear(&mut self)
        ensures
            final(self).wf(),
            final(self)@ == Seq::new(PIXELS as nat, |k: int| false),
    {
        self.pixels = vec![false; PIXELS];
        assert(self.pixels@ =~= Seq::new(PIXELS as nat, |k: int| false));
    }

    /// XOR-composites one sprite row at column `x`, row `y` (both taken
    /// modulo the screen size), most significant bit leftmost, and reports
    /// whether a pixel that was on got turned off.
    pub fn write_row_buffer(&mut self, x: usize, y: usize, row_as_byte: u8) -> (collided: bool)
        requires
            old(self).wf(),
        ensures
            final(self).wf(),
            final(self)@ == drawn(old(self)@, seq![row_as_byte], (x % 64) as int, (y % 32) as int),
            collided == collides(old(self)@, seq![row_as_byte], (x % 64) as int, (y % 32) as int),
    {
        let ghost px0 = self@;
        let xx = x % WIDTH;
        let yy = y % HEIGHT;
        let mut collision = false;
        let mut i: u8 = 0;
        while i < 8
            invariant
                self.wf(),
                0 <= i <= 8,
                xx < 64,
                yy < 32,
                px0.len() == PIXELS,
                self@ == Seq::new(
                    PIXELS as nat,
                    |k: int| px0[k] != lit_bits(row_as_byte, xx as int, yy as int, k, i as int),
                ),
                collision == exists|k: int|
                    0 <= k < PIXELS && #[trigger] lit_bits(
                        row_as_byte,
                        xx as int,
                        yy as int,
                        k,
                        i as int,
                    ) && px0[k],
            decreases 8 - i,
        {
            let idx = yy * WIDTH + (xx + i as usize) % WIDTH;
            let bit = (row_as_byte >> (7 - i)) & 1 == 1;
            proof {
                assert(bit == sprite_bit(row_as_byte, i as int));
                lemma_row_index(xx as int, yy as int, i as int, idx as int);
            }
            let ghost before = self@;
            let ghost was_colliding = collision;
            if bit {
                let cur = self.pixels[idx];
                if cur {
                    collision = true;
                }
                self.pixels.set(idx, !cur);
            }
            proof {
                assert forall|k: int| 0 <= k < PIXELS implies #[trigger] self@[k] == (px0[k]
                    != lit_bits(row_as_byte, xx as int, yy as int, k, i + 1)) by {
                    lemma_row_index(xx as int, yy as int, i as int, k);
                }
                assert(self@ =~= Seq::new(
                    PIXELS as nat,
                    |k: int| px0[k] != lit_bits(row_as_byte, xx as int, yy as int, k, i + 1),
                ));
                assert(before[idx as int] == px0[idx as int]);
                if collision {
                    if was_colliding {
                        let k = choose|k: int|
                            0 <= k < PIXELS && #[trigger] lit_bits(row_as_byte, xx as int, yy as int, k, i as int)
                                && px0[k];
                        assert(lit_bits(row_as_byte, xx as int, yy as int, k, i + 1));
                    } else {
                        assert(lit_bits(row_as_byte, xx as int, yy as int, idx as int, i + 1));
                    }
                } else {
                    assert forall|k: int|
                        0 <= k < PIXELS && #[trigger] lit_bits(row_as_byte, xx as int, yy as int, k, i + 1)
                            implies !px0[k] by {
                        lemma_row_index(xx as int, yy as int, i as int, k);
                        if !lit_bits(row_as_byte, xx as int, yy as int, k, i as int) {
                            assert(k == idx);
                        }
                    }
                }
            }
            i = i + 1;
        }
        proof {
            assert forall|k: int| 0 <= k < PIXELS implies lit(seq![row_as_byte], xx as int, yy as int, k)
                == lit_bits(row_as_byte, xx as int, yy as int, k, 8) by {
                lemma_single_row(row_as_byte, xx as int, yy as int, k);
            }
            assert(self@ =~= drawn(px0, seq![row_as_byte], xx as int, yy as int));
            if collision {
                let k = choose|k: int|
                    0 <= k < PIXELS && #[trigger] lit_bits(row_as_byte, xx as int, yy as int, k, 8) && px0[k];
                assert(lit(seq![row_as_byte], xx as int, yy as int, k));
            }
            if collides(px0, seq![row_as_byte], xx as int, yy as int) {
                let k = choose|k: int|
                    0 <= k < px0.len() && #[trigger] lit(seq![row_as_byte], xx as int, yy as int, k) && px0[k];
                assert(lit_bits(row_as_byte, xx as int, yy as int, k, 8));
            }
        }
        collision
    }

    /// XOR-composites a sprite, one row per byte, with its top-left corner at
    /// column `x`, row `y` (both taken modulo the screen size). Row `r` goes
    /// to screen row `(y + r) mod 32`, one row after another. Reports whether
    /// any pixel that was on got turned off.
    pub fn write_sprite(&mut self, x: usize, y: usize, sprite_bytes: &Vec<u8>) -> (collided: bool)
        requires
            old(self).wf(),
        ensures
            final(self).wf(),
            final(self)@ == sprite_drawn(old(self)@, sprite_bytes@, (x % 64) as int, (y % 32) as int),
            collided == sprite_collides(
                old(self)@,
                sprite_bytes@,
                (x % 64) as int,
                (y % 32) as int,
            ),
    {
        let ghost px0 = self@;
        let ghost rows = sprite_bytes@;
        let xx = x % WIDTH;
        let yy = y % HEIGHT;
        let mut collision = false;
        let mut r: usize = 0;
        let mut row: usize = yy;
        while r < sprite_bytes.len()
            invariant
                self.wf(),
                r <= rows.len(),
                rows == sprite_bytes@,
                xx == x % 64,
                yy == y % 32,
                row == (yy + r) % 32,
                px0.len() == PIXELS,
                self@ == sprite_drawn(px0, rows.take(r as int), xx as int, yy as int),
                collision == sprite_collides(px0, rows.take(r as int), xx as int, yy as int),
            decreases rows.len() - r,
        {
            proof {
                assert(rows.take(r + 1).drop_last() =~= rows.take(r as int));
                assert(rows.take(r + 1).last() == rows[r as int]);
            }
            let hit = self.write_row_buffer(xx, row, sprite_bytes[r]);
            collision = collision || hit;
            r = r + 1;
            row = (row + 1) % HEIGHT;
        }
        proof {
            assert(rows.take(rows.len() as int) =~= rows);
        }
        collision
    }

    /// Whether the pixel at column `x`, row `y` is on.
    pub fn pixel(&self, x: usize, y: usize) -> (r: bool)
        requires
            self.wf(),
            x < WIDTH,
            y < HEIGHT,
        ensures
            r == self@[y * 64 + x],
    {
        self.pixels[y * WIDTH + x]
    }
}

} // verus!
