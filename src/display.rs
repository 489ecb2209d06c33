//! The monochrome framebuffer and its sprite drawing.
use vstd::prelude::*;

verus! {

/// Width of the screen in pixels.
pub const WIDTH: usize = 64;

/// Height of the screen in pixels.
pub const HEIGHT: usize = 32;

/// Number of pixels on the screen.
pub const PIXELS: usize = 2048;

/// Whether bit `k` of a sprite row is set, counting from the most significant
/// bit (the leftmost pixel) as 0.
pub open spec fn sprite_bit(b: u8, k: int) -> bool {
    (b >> ((7 - k) as u8)) & 1u8 == 1u8
}

/// The sprite row that reaches pixel `p` when drawn at `(x, y)`: its offset
/// from `y`, wrapped around the screen's height.
pub open spec fn row_offset(y: u8, p: int) -> int {
    (p / 64 - y) % 32
}

/// The sprite column that reaches pixel `p` when drawn at `(x, y)`: its offset
/// from `x`, wrapped around the screen's width.
pub open spec fn col_offset(x: u8, p: int) -> int {
    (p % 64 - x) % 64
}

/// Whether drawing `sprite` at `(x, y)` toggles pixel `p` (row-major index).
pub open spec fn hit(sprite: Seq<u8>, x: u8, y: u8, p: int) -> bool {
    &&& col_offset(x, p) < 8
    &&& row_offset(y, p) < sprite.len()
    &&& sprite_bit(sprite[row_offset(y, p)], col_offset(x, p))
}

/// The screen after drawing `sprite` at `(x, y)`: every pixel that a set bit
/// of the sprite reaches is flipped, the others are kept.
pub open spec fn drawn(pixels: Seq<bool>, sprite: Seq<u8>, x: u8, y: u8) -> Seq<bool> {
    Seq::new(pixels.len(), |p: int| pixels[p] != hit(sprite, x, y, p))
}

/// Whether drawing `sprite` at `(x, y)` turns off a pixel that was on.
pub open spec fn collides(pixels: Seq<bool>, sprite: Seq<u8>, x: u8, y: u8) -> bool {
    exists|p: int| 0 <= p < pixels.len() && #[trigger] hit(sprite, x, y, p) && pixels[p]
}

/// The built-in glyphs of the hexadecimal digits 0 to F, five rows each.
pub open spec fn font() -> Seq<u8> {
    seq![
        0xF0, 0x90, 0x90, 0x90, 0xF0,
        0x20, 0x60, 0x20, 0x20, 0x70,
        0xF0, 0x10, 0xF0, 0x80, 0xF0,
        0xF0, 0x10, 0xF0, 0x10, 0xF0,
        0x90, 0x90, 0xF0, 0x10, 0x10,
        0xF0, 0x80, 0xF0, 0x10, 0xF0,
        0xF0, 0x80, 0xF0, 0x90, 0xF0,
        0xF0, 0x10, 0x20, 0x40, 0x40,
        0xF0, 0x90, 0xF0, 0x90, 0xF0,
        0xF0, 0x90, 0xF0, 0x10, 0xF0,
        0xF0, 0x90, 0xF0, 0x90, 0x90,
        0xE0, 0x90, 0xE0, 0x90, 0xE0,
        0xF0, 0x80, 0x80, 0x80, 0xF0,
        0xE0, 0x90, 0x90, 0x90, 0xE0,
        0xF0, 0x80, 0xF0, 0x80, 0xF0,
        0xF0, 0x80, 0xF0, 0x80, 0x80,
    ]
}

/// The built-in glyphs, as bytes to copy into memory.
pub fn fontset() -> (r: Vec<u8>)
    ensures
        r@ == font(),
        r@.len() == 80,
{
    let r: Vec<u8> = vec![
        0xF0, 0x90, 0x90, 0x90, 0xF0,
        0x20, 0x60, 0x20, 0x20, 0x70,
        0xF0, 0x10, 0xF0, 0x80, 0xF0,
        0xF0, 0x10, 0xF0, 0x10, 0xF0,
        0x90, 0x90, 0xF0, 0x10, 0x10,
        0xF0, 0x80, 0xF0, 0x10, 0xF0,
        0xF0, 0x80, 0xF0, 0x90, 0xF0,
        0xF0, 0x10, 0x20, 0x40, 0x40,
        0xF0, 0x90, 0xF0, 0x90, 0xF0,
        0xF0, 0x90, 0xF0, 0x10, 0xF0,
        0xF0, 0x90, 0xF0, 0x90, 0x90,
        0xE0, 0x90, 0xE0, 0x90, 0xE0,
        0xF0, 0x80, 0x80, 0x80, 0xF0,
        0xE0, 0x90, 0x90, 0x90, 0xE0,
        0xF0, 0x80, 0xF0, 0x80, 0xF0,
        0xF0, 0x80, 0xF0, 0x80, 0x80,
    ];
    assert(r@ =~= font());
    r
}

/// The framebuffer: `WIDTH * HEIGHT` pixels, row by row.
pub struct Display {
    pixels: Vec<bool>,
}

impl View for Display {
    type V = Seq<bool>;

    closed spec fn view(&self) -> Seq<bool> {
        self.pixels@
    }
}

impl Display {
    /// The framebuffer holds exactly one flag per pixel.
    pub open spec fn wf(&self) -> bool {
        self@.len() == PIXELS
    }

    /// A screen with every pixel off.
    pub fn new() -> (r: Self)
        ensures
            r.wf(),
            r@ == Seq::new(PIXELS as nat, |p: int| false),
    {
        let mut pixels: Vec<bool> = Vec::new();
        let mut n: usize = 0;
        while n < PIXELS
            invariant
                n <= PIXELS,
                pixels@ == Seq::new(n as nat, |p: int| false),
            decreases PIXELS - n,
        {
            pixels.push(false);
            n = n + 1;
        }
        Display { pixels }
    }

    /// Turns every pixel off.
    pub fn clear(&mut self)
        requires
            old(self).wf(),
        ensures
            final(self).wf(),
            final(self)@ == Seq::new(PIXELS as nat, |p: int| false),
    {
        let mut n: usize = 0;
        while n < PIXELS
            invariant
                n <= PIXELS,
                self@.len() == PIXELS,
                forall|p: int| 0 <= p < n ==> !self@[p],
            decreases PIXELS - n,
        {
            self.pixels[n] = false;
            n = n + 1;
        }
        assert(self@ =~= Seq::new(PIXELS as nat, |p: int| false));
    }

    /// Whether the pixel at `row`, `col` is on.
    pub fn get_pixel(&self, row: usize, col: usize) -> (r: bool)
        requires
            self.wf(),
            row < HEIGHT,
            col < WIDTH,
        ensures
            r == self@[row * 64 + col],
    {
        self.pixels[row * WIDTH + col]
    }

    /// Draws `sprite` at `(x, y)` by XOR, wrapping around the screen's edges,
    /// one byte per row; returns whether a pixel that was on went off.
    pub fn draw(&mut self, x: u8, y: u8, sprite: &[u8]) -> (collision: bool)
        requires
            old(self).wf(),
            sprite@.len() < 16,
        ensures
            final(self).wf(),
            final(self)@ == drawn(old(self)@, sprite@, x, y),
            collision == collides(old(self)@, sprite@, x, y),
    {
        let ghost start = self@;
        let mut collision = false;
        let mut j: usize = 0;
        while j < sprite.len()
            invariant
                j <= sprite@.len() < 16,
                self@.len() == PIXELS,
                start.len() == PIXELS,
                forall|p: int| 0 <= p < PIXELS ==> #[trigger] self@[p] == (start[p] != (hit(sprite@, x, y, p) && row_offset(y, p) < j)),
                collision == exists|p: int| 0 <= p < PIXELS && #[trigger] hit(sprite@, x, y, p) && row_offset(y, p) < j && start[p],
            decreases sprite@.len() - j,
        {
            let row_bits = sprite[j];
            let mut k: u8 = 0;
            while k < 8
                invariant
                    j < sprite@.len() < 16,
                    row_bits == sprite@[j as int],
                    k <= 8,
                    self@.len() == PIXELS,
                    start.len() == PIXELS,
                    forall|p: int| 0 <= p < PIXELS ==> #[trigger] self@[p] == (start[p] != (hit(sprite@, x, y, p) && (row_offset(y, p) < j || (row_offset(y, p) == j && col_offset(x, p) < k)))),
                    collision == exists|p: int| 0 <= p < PIXELS && #[trigger] hit(sprite@, x, y, p) && (row_offset(y, p) < j || (row_offset(y, p) == j && col_offset(x, p) < k)) && start[p],
                decreases 8 - k,
            {
                let idx = ((y as usize + j) % HEIGHT) * WIDTH + (x as usize + k as usize) % WIDTH;
                proof {
                    lemma_cell(x, y, j as int, k as int);
                }
                if (row_bits >> (7 - k)) & 1 == 1 {
                    if self.pixels[idx] {
                        collision = true;
                    }
                    let old_pixel = self.pixels[idx];
                    self.pixels[idx] = !old_pixel;
                }
                proof {
                    let before = |p: int, kk: int| hit(sprite@, x, y, p) && (row_offset(y, p) < j || (row_offset(y, p) == j && col_offset(x, p) < kk));
                    assert forall|p: int| 0 <= p < PIXELS && #[trigger] hit(sprite@, x, y, p)
                        implies before(p, k + 1) == (before(p, k as int) || p == idx) by {
                    }
                    if collision {
                        let w = if hit(sprite@, x, y, idx as int) && start[idx as int] && !before(idx as int, k as int) {
                            idx as int
                        } else {
                            choose|p: int| 0 <= p < PIXELS && #[trigger] hit(sprite@, x, y, p) && before(p, k as int) && start[p]
                        };
                        assert(0 <= w < PIXELS && hit(sprite@, x, y, w) && before(w, k + 1) && start[w]);
                    }
                }
                k = k + 1;
            }
            j = j + 1;
        }
        assert(self@ =~= drawn(start, sprite@, x, y));
        collision
    }
}

/// The pixel that row `j`, column `k` of a sprite at `(x, y)` reaches, and no
/// other, has those offsets.
proof fn lemma_cell(x: u8, y: u8, j: int, k: int)
    requires
        0 <= j < 32,
        0 <= k < 8,
    ensures
        0 <= ((y + j) % 32) * 64 + (x + k) % 64 < 2048,
        row_offset(y, ((y + j) % 32) * 64 + (x + k) % 64) == j,
        col_offset(x, ((y + j) % 32) * 64 + (x + k) % 64) == k,
        forall|p: int| 0 <= p < 2048 && row_offset(y, p) == j && col_offset(x, p) == k
            ==> p == ((y + j) % 32) * 64 + (x + k) % 64,
{
    let r = (y + j) % 32;
    let c = (x + k) % 64;
    let idx = r * 64 + c;
    assert(0 <= r < 32 && 0 <= c < 64);
    assert(idx / 64 == r && idx % 64 == c) by (nonlinear_arith)
        requires idx == r * 64 + c, 0 <= c < 64, 0 <= r < 32;
    assert((r - y) % 32 == j) by (nonlinear_arith)
        requires r == (y + j) % 32, 0 <= j < 32, 0 <= y;
    assert((c - x) % 64 == k) by (nonlinear_arith)
        requires c == (x + k) % 64, 0 <= k < 8, 0 <= x;
    assert forall|p: int| 0 <= p < 2048 && row_offset(y, p) == j && col_offset(x, p) == k
        implies p == idx by {
        let pr = p / 64;
        let pc = p % 64;
        assert(p == pr * 64 + pc && 0 <= pr < 32 && 0 <= pc < 64) by (nonlinear_arith)
            requires 0 <= p < 2048, pr == p / 64, pc == p % 64;
        assert(pr == r) by (nonlinear_arith)
            requires (pr - y) % 32 == j, 0 <= pr < 32, r == (y + j) % 32, 0 <= j < 32, 0 <= y;
        assert(pc == c) by (nonlinear_arith)
            requires (pc - x) % 64 == k, 0 <= pc < 64, c == (x + k) % 64, 0 <= k < 8, 0 <= x;
    }
}

/// Drawing a sprite onto a clear screen turns no pixel off; drawing it again
/// at the same place turns off every pixel the first draw turned on, reports
/// a collision exactly when the sprite lit some pixel, and leaves the screen
/// as it was.
pub proof fn lemma_draw_collision(pixels: Seq<bool>, sprite: Seq<u8>, x: u8, y: u8)
    requires
        pixels.len() == PIXELS,
    ensures
        drawn(drawn(pixels, sprite, x, y), sprite, x, y) == pixels,
        (forall|p: int| 0 <= p < PIXELS ==> !#[trigger] pixels[p]) ==> {
            &&& !collides(pixels, sprite, x, y)
            &&& collides(drawn(pixels, sprite, x, y), sprite, x, y)
                == exists|p: int| 0 <= p < PIXELS && #[trigger] hit(sprite, x, y, p)
        },
{
    assert(drawn(drawn(pixels, sprite, x, y), sprite, x, y) =~= pixels);
}

} // verus!
