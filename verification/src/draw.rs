//! Dxyn: drawing a sprite. The display is XORed with the sprite pixel by
//! pixel, row by row; coordinates past an edge wrap round.
use vstd::arithmetic::div_mod::{lemma_fundamental_div_mod, lemma_fundamental_div_mod_converse};
use vstd::prelude::*;

use crate::cpu::Cpu;
use crate::model::{sprite_bit, CpuState, Sprite, DISPLAY_SIZE, MEMORY_SIZE, TICK_DIVISOR};

verus! {

/// Some pixel among the first `k` of the sprite erased a lit pixel.
pub open spec fn collided_before(s: CpuState, x: u8, y: u8, k: int) -> bool {
    exists|j: int| 0 <= j < k && #[trigger] s.erases_at(x, y, j)
}

/// The pixel in row `py` and column `px` of a `w`-wide display of `h` rows.
pub(crate) proof fn lemma_pixel_index(py: int, px: int, w: int, h: int)
    requires
        0 <= py < h,
        0 <= px < w,
    ensures
        0 <= py * w + px < h * w,
        (py * w + px) / w == py,
        (py * w + px) % w == px,
{
    assert(0 <= py * w + px < h * w) by (nonlinear_arith)
        requires
            0 <= py < h,
            0 <= px < w,
    ;
    lemma_fundamental_div_mod_converse(py * w + px, w, py, px);
}

/// The `k`-th sprite pixel is row `k / 8` and column `k % 8`.
pub(crate) proof fn lemma_row_col(k: int, row: int, col: int)
    requires
        0 <= col < 8,
        k == row * 8 + col,
    ensures
        k / 8 == row,
        k % 8 == col,
{
    lemma_fundamental_div_mod_converse(k, 8, row, col);
}

/// Two numbers less than `m` apart with the same remainder are equal.
proof fn lemma_mod_injective(a: int, b: int, m: int)
    requires
        m > 0,
        a >= 0,
        b >= 0,
        a - b < m,
        b - a < m,
        a % m == b % m,
    ensures
        a == b,
{
    lemma_fundamental_div_mod(a, m);
    lemma_fundamental_div_mod(b, m);
    let qa = a / m;
    let qb = b / m;
    assert(qa == qb) by (nonlinear_arith)
        requires
            a == m * qa + a % m,
            b == m * qb + b % m,
            a % m == b % m,
            a - b < m,
            b - a < m,
            m > 0,
    ;
}

/// On a display at least 8 wide and `n` high, different pixels of an
/// `n`-row sprite land on different display pixels.
pub(crate) proof fn lemma_pixels_distinct(sp: Sprite, n: int, j: int, k: int)
    requires
        sp.w >= 8,
        sp.h >= n,
        sp.x >= 0,
        sp.y >= 0,
        0 <= j < k < 8 * n,
    ensures
        sp.pixel(j) != sp.pixel(k),
{
    let rj = j / 8;
    let cj = j % 8;
    let rk = k / 8;
    let ck = k % 8;
    lemma_fundamental_div_mod(j, 8);
    lemma_fundamental_div_mod(k, 8);
    assert(0 <= rj < n && 0 <= rk < n);
    let yj = (sp.y + rj) % sp.h;
    let yk = (sp.y + rk) % sp.h;
    let xj = (sp.x + cj) % sp.w;
    let xk = (sp.x + ck) % sp.w;
    lemma_pixel_index(yj, xj, sp.w, sp.h);
    lemma_pixel_index(yk, xk, sp.w, sp.h);
    if sp.pixel(j) == sp.pixel(k) {
        assert(yj == yk && xj == xk);
        lemma_mod_injective(sp.x + cj, sp.x + ck, sp.w);
        lemma_mod_injective(sp.y + rj, sp.y + rk, sp.h);
        assert(j == k);
    }
}

/// With the sprite's pixels on different display pixels, a display pixel is
/// flipped by the first `k` sprite pixels exactly when one of them is set
/// and lands on it.
pub(crate) proof fn lemma_flipped_distinct(sp: Sprite, n: int, k: int, idx: int)
    requires
        sp.w >= 8,
        sp.h >= n,
        sp.x >= 0,
        sp.y >= 0,
        0 <= k <= 8 * n,
    ensures
        sp.flipped(k, idx) == exists|j: int| 0 <= j < k && sp.bit(j) && #[trigger] sp.pixel(j) == idx,
    decreases k,
{
    if k > 0 {
        lemma_flipped_distinct(sp, n, k - 1, idx);
        if sp.bit(k - 1) && sp.pixel(k - 1) == idx {
            if exists|j: int| 0 <= j < k - 1 && sp.bit(j) && #[trigger] sp.pixel(j) == idx {
                let j = choose|j: int| 0 <= j < k - 1 && sp.bit(j) && #[trigger] sp.pixel(j) == idx;
                lemma_pixels_distinct(sp, n, j, k - 1);
            }
            assert(0 <= k - 1 < k && sp.bit(k - 1) && sp.pixel(k - 1) == idx);
        } else {
            if exists|j: int| 0 <= j < k && sp.bit(j) && #[trigger] sp.pixel(j) == idx {
                let j = choose|j: int| 0 <= j < k && sp.bit(j) && #[trigger] sp.pixel(j) == idx;
                assert(j < k - 1);
            }
        }
    }
}

impl Cpu {
    /// Dxyn - DRW Vx, Vy, nibble: XOR the `n`-row sprite at `I` onto the
    /// display at `(Vx, Vy)`; parts of the sprite outside the display wrap
    /// round to the opposite side. `VF` is 1 if a lit pixel was erased and 0
    /// otherwise. Late in a timer period the instruction waits for the next
    /// tick instead (it repeats).
    pub fn drw(&mut self, x: u8, y: u8, n: u8)
        requires
            x < 16,
            y < 16,
            old(self).tick_divider_counter >= TICK_DIVISOR / 2 ==> old(self).pc >= 2,
            !old(self)@.drw_faults(x, y, n),
        ensures
            final(self)@ == old(self)@.drw(x, y, n),
    {
        let ghost s = old(self)@;
        // running at timer clock speed is apparently too slow.
        // running at about 2x the timer clock speed seems to be ok
        if self.tick_divider_counter < (TICK_DIVISOR / 2) {
            // Start with no collision
            self.v[0xf] = 0;

            let x_pos: u16 = self.v[x as usize] as u16;
            let y_pos: u16 = self.v[y as usize] as u16;
            let h: u16 = self.display_height as u16;
            let w: u16 = self.display_width as u16;
            let ghost sp = s.sprite(x, y);
            assert(self.v@ =~= s.v.update(15, if collided_before(s, x, y, 0) { 1u8 } else { 0u8 }));

            let mut row: u8 = 0;
            // For each row of the sprite
            while row < n
                invariant
                    x < 16,
                    y < 16,
                    s == old(self)@,
                    sp == s.sprite(x, y),
                    s.tick_divider_counter < TICK_DIVISOR / 2,
                    n > 0 ==> h > 0 && w > 0 && s.i + n <= MEMORY_SIZE && !s.draws_off_display(
                        x,
                        y,
                        n,
                    ),
                    h == s.display_height,
                    w == s.display_width,
                    x_pos == sp.x,
                    y_pos == sp.y,
                    row <= n,
                    self@ == (CpuState { display: self@.display, v: self@.v, ..s }),
                    self.display.memory@.len() == DISPLAY_SIZE,
                    forall|idx: int|
                        0 <= idx < DISPLAY_SIZE ==> #[trigger] self.display.memory@[idx] == (
                        s.display[idx] != sp.flipped(row * 8, idx)),
                    self.v@ == s.v.update(
                        15,
                        if collided_before(s, x, y, row * 8) {
                            1u8
                        } else {
                            0u8
                        },
                    ),
                decreases n - row,
            {
                // Get sprite byte from memory at I + row
                let sprite_byte: u8 = self.memory[(self.i + row as u16) as usize];
                let screen_y: u16 = (y_pos + row as u16) % h;

                let mut col: u16 = 0;
                // For each pixel in the row (8 pixels per byte)
                while col < 8
                    invariant
                        x < 16,
                        y < 16,
                        s == old(self)@,
                        sp == s.sprite(x, y),
                        h > 0,
                        w > 0,
                        s.i + n <= MEMORY_SIZE,
                        !s.draws_off_display(x, y, n),
                        h == s.display_height,
                        w == s.display_width,
                        x_pos == sp.x,
                        y_pos == sp.y,
                        row < n,
                        screen_y == (y_pos + row) % (h as int),
                        sprite_byte == s.memory[s.i + row],
                        col <= 8,
                        self@ == (CpuState { display: self@.display, v: self@.v, ..s }),
                        self.display.memory@.len() == DISPLAY_SIZE,
                        forall|idx: int|
                            0 <= idx < DISPLAY_SIZE ==> #[trigger] self.display.memory@[idx] == (
                            s.display[idx] != sp.flipped(row * 8 + col, idx)),
                        self.v@ == s.v.update(
                            15,
                            if collided_before(s, x, y, row * 8 + col) {
                                1u8
                            } else {
                                0u8
                            },
                        ),
                    decreases 8 - col,
                {
                    let ghost k: int = row * 8 + col;
                    // Calculate screen position with wraparound
                    let screen_x: u16 = (x_pos + col) % w;
                    proof {
                        lemma_row_col(k, row as int, col as int);
                        lemma_pixel_index(screen_y as int, screen_x as int, w as int, h as int);
                        assert((h as int) * (w as int) <= 255 * 255) by (nonlinear_arith)
                            requires
                                h <= 255,
                                w <= 255,
                        ;
                        assert(sp.pixel(k) == screen_y * w + screen_x);
                        assert(sp.bit(k) == sprite_bit(sprite_byte, col as int));
                    }
                    let idx: usize = (screen_y * w + screen_x) as usize;
                    let mask: u8 = 0b1000_0000u8 >> (col as u8);

                    // Check if this pixel is set in the sprite
                    if (sprite_byte & mask) > 0 {
                        proof {
                            assert(!s.lands_off_display(x, y, k));
                        }
                        // XOR pixel onto screen, check for collision
                        if self.display.memory[idx] {
                            self.v[0xf] = 1;
                        }
                        let pixel: bool = self.display.memory[idx];
                        self.display.memory[idx] = !pixel;
                    }
                    proof {
                        if collided_before(s, x, y, k) {
                            let j = choose|j: int| 0 <= j < k && #[trigger] s.erases_at(x, y, j);
                            assert(0 <= j < k + 1 && s.erases_at(x, y, j));
                        }
                        if collided_before(s, x, y, k + 1) && !collided_before(s, x, y, k) {
                            let j = choose|j: int| 0 <= j < k + 1 && #[trigger] s.erases_at(x, y, j);
                            assert(j == k);
                        }
                        if s.erases_at(x, y, k) {
                            assert(0 <= k < k + 1 && s.erases_at(x, y, k));
                        }
                        assert(self.v@ =~= s.v.update(
                            15,
                            if collided_before(s, x, y, k + 1) {
                                1u8
                            } else {
                                0u8
                            },
                        ));
                    }
                    col = col + 1;
                }
                row = row + 1;
            }
            proof {
                assert(self@.display =~= s.drawn_display(x, y, n));
                assert(self@.v =~= s.set_v(15, if s.collides(x, y, n) { 1 } else { 0 }).v);
            }
        } else {
            // Loop until we get the tick (blanking interval)
            self.pc = self.pc - 2;
        }
    }
}

} // verus!
