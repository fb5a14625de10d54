//! The instruction cycle: fetch, timers, decode and execute.
use vstd::prelude::*;

use crate::cpu::{read_word, Cpu};
use crate::draw::{lemma_pixel_index, lemma_row_col};
use crate::model::{
    lemma_nibbles,
    address, low_byte, nibble0, nibble1, nibble2, nibble3, sprite_bit, CpuState, DISPLAY_SIZE,
    MEMORY_SIZE, TICK_DIVISOR,
};

verus! {

impl Cpu {
    /// Moves the program counter past the instruction and counts the cycle
    /// towards the next timer tick, ticking the timers every ninth cycle.
    fn advance(&mut self)
        ensures
            final(self)@ == old(self)@.fetched(),
    {
        self.pc = self.pc.saturating_add(2);
        self.tick_divider_counter = self.tick_divider_counter.saturating_add(1);
        if self.tick_divider_counter >= TICK_DIVISOR {
            self.tick_divider_counter = 0;
            self.tick();
        }
    }

    /// Runs one instruction cycle: fetch the word at the program counter,
    /// move past it, tick the timers every ninth cycle, and execute it. With
    /// the program counter past the end of memory nothing happens.
    ///
    /// Returns the instruction word when the machine does not know it (it is
    /// then skipped), and `None` otherwise.
    pub fn execute_cycle(&mut self) -> (unknown: Option<u16>)
        requires
            !old(self)@.cycle_faults(),
        ensures
            exists|rn: u8| final(self)@ == #[trigger] old(self)@.cycle(rn),
            unknown == if old(self)@.cycle_unknown() {
                Some(old(self)@.opcode())
            } else {
                None::<u16>
            },
    {
        if (self.pc as usize) > MEMORY_SIZE - 1 {
            assert(self@ == old(self)@.cycle(0u8));
            return None;
        }
        let opcode: u16 = read_word(&self.memory, self.pc);
        self.advance();
        let unknown: Option<u16> = self.process_opcode(opcode);
        proof {
            let rn = choose|rn: u8| self@ == #[trigger] old(self)@.fetched().execute(opcode, rn);
            assert(self@ == old(self)@.cycle(rn));
        }
        unknown
    }

    /// Whether the next cycle cannot be carried out (see
    /// `CpuState::cycle_faults`): `execute_cycle` may be called exactly when
    /// this is `false`.
    pub fn cycle_would_fault(&self) -> (faults: bool)
        ensures
            faults == self@.cycle_faults(),
    {
        if self.pc as usize == MEMORY_SIZE - 1 {
            return true;
        }
        if self.pc as usize >= MEMORY_SIZE {
            return false;
        }
        let opcode: u16 = read_word(&self.memory, self.pc);
        let mut probe: Cpu = *self;
        assert(probe@ == self@);
        probe.advance();
        assert(probe@ == self@.fetched());
        probe.instruction_faults(opcode)
    }

    /// Whether executing `opcode` in this state would index outside the
    /// machine's arrays or overflow a register (see `CpuState::op_faults`).
    pub fn instruction_faults(&self, opcode: u16) -> (faults: bool)
        ensures
            faults == self@.op_faults(opcode),
    {
        if self.bounds_faults(opcode) {
            return true;
        }
        let a: u8 = ((opcode & 0xf000) >> 12) as u8;
        let x: u8 = ((opcode & 0x0f00) >> 8) as u8;
        let y: u8 = ((opcode & 0x00f0) >> 4) as u8;
        let d: u8 = (opcode & 0x000f) as u8;
        let kk: u16 = opcode & 0x00ff;
        proof {
            lemma_nibbles(opcode);
        }
        let vx: u8 = self.v[x as usize];
        let vy: u8 = self.v[y as usize];
        let skips: bool = if a == 3 {
            vx as u16 == kk
        } else if a == 4 {
            vx as u16 != kk
        } else if a == 5 {
            d == 0 && vx == vy
        } else if a == 9 {
            d == 0 && vx != vy
        } else if a == 0xE {
            // `Vx` is a key number here: larger ones fault above.
            if y == 9 && d == 0xE {
                self.keypad.keys[vx as usize]
            } else if y == 0xA && d == 1 {
                !self.keypad.keys[vx as usize]
            } else {
                false
            }
        } else {
            false
        };
        let waits: bool = if a == 0xD {
            self.tick_divider_counter >= TICK_DIVISOR / 2
        } else if a == 0xF {
            y == 0 && d == 0xA && !self.keypad.any_pressed()
        } else {
            false
        };
        (skips && self.pc as u32 + 2 > u16::MAX as u32) || (waits && self.pc < 2)
    }

    /// Whether the instruction `opcode` would index outside the machine's
    /// arrays or overflow a register other than the program counter.
    fn bounds_faults(&self, opcode: u16) -> (faults: bool)
        ensures
            faults == self@.op_bounds_faults(opcode),
    {
        let a: u8 = ((opcode & 0xf000) >> 12) as u8;
        let x: u8 = ((opcode & 0x0f00) >> 8) as u8;
        let y: u8 = ((opcode & 0x00f0) >> 4) as u8;
        let d: u8 = (opcode & 0x000f) as u8;
        proof {
            lemma_nibbles(opcode);
        }
        if a == 0 {
            x == 0 && y == 0xE && d == 0xE && self.sp >= 16
        } else if a == 2 {
            self.sp.wrapping_add(1) >= 16
        } else if a == 0xD {
            if self.tick_divider_counter >= TICK_DIVISOR / 2 || d == 0 {
                false
            } else if self.display_height == 0 || self.display_width == 0 {
                true
            } else if self.i as usize + d as usize > MEMORY_SIZE {
                true
            } else {
                self.sprite_leaves_display(x, y, d)
            }
        } else if a == 0xE {
            ((y == 9 && d == 0xE) || (y == 0xA && d == 1)) && self.v[x as usize] >= 16
        } else if a == 0xF {
            if y == 1 && d == 0xE {
                self.i as u32 + self.v[x as usize] as u32 > u16::MAX as u32
            } else if y == 2 && d == 9 {
                self.v[x as usize] as u16 * 5 > u8::MAX as u16
            } else if y == 3 && d == 3 {
                self.i as usize + 2 >= MEMORY_SIZE
            } else if (y == 5 || y == 6) && d == 5 {
                self.i as usize + x as usize >= MEMORY_SIZE
            } else {
                false
            }
        } else {
            false
        }
    }

    /// Whether the sprite drawn by Dxyn would flip a pixel past the end of the
    /// display buffer.
    fn sprite_leaves_display(&self, x: u8, y: u8, n: u8) -> (leaves: bool)
        requires
            x < 16,
            y < 16,
            self.display_height > 0,
            self.display_width > 0,
            self.i + n <= MEMORY_SIZE,
        ensures
            leaves == self@.draws_off_display(x, y, n),
    {
        let ghost s = self@;
        let ghost sp = s.sprite(x, y);
        let h: u16 = self.display_height as u16;
        let w: u16 = self.display_width as u16;
        // `VF` is cleared before the coordinates are read.
        let x_pos: u16 = if x == 15 {
            0
        } else {
            self.v[x as usize] as u16
        };
        let y_pos: u16 = if y == 15 {
            0
        } else {
            self.v[y as usize] as u16
        };
        assert(x_pos == sp.x && y_pos == sp.y);
        let mut leaves: bool = false;
        let mut row: u8 = 0;
        while row < n && !leaves
            invariant
                s == self@,
                sp == s.sprite(x, y),
                h == s.display_height,
                w == s.display_width,
                h > 0,
                w > 0,
                x_pos == sp.x,
                y_pos == sp.y,
                s.i + n <= MEMORY_SIZE,
                row <= n,
                leaves ==> s.draws_off_display(x, y, n),
                !leaves ==> forall|j: int| 0 <= j < row * 8 ==> !#[trigger] s.lands_off_display(x, y, j),
            decreases n - row + (if leaves { 0int } else { 1int }),
        {
            let byte: u8 = self.memory[(self.i + row as u16) as usize];
            let screen_y: u16 = (y_pos + row as u16) % h;
            let mut col: u16 = 0;
            while col < 8 && !leaves
                invariant
                    s == self@,
                    sp == s.sprite(x, y),
                    h == s.display_height,
                    w == s.display_width,
                    h > 0,
                    w > 0,
                    x_pos == sp.x,
                    y_pos == sp.y,
                    s.i + n <= MEMORY_SIZE,
                    row < n,
                    byte == s.memory[s.i + row],
                    screen_y == (y_pos + row) % (h as int),
                    col <= 8,
                    leaves ==> s.draws_off_display(x, y, n),
                    !leaves ==> forall|j: int|
                        0 <= j < row * 8 + col ==> !#[trigger] s.lands_off_display(x, y, j),
                decreases 8 - col + (if leaves { 0int } else { 1int }),
            {
                let ghost k: int = row * 8 + col;
                let mask: u8 = 0b1000_0000u8 >> (col as u8);
                let screen_x: u16 = (x_pos + col) % w;
                proof {
                    lemma_row_col(k, row as int, col as int);
                    lemma_pixel_index(screen_y as int, screen_x as int, w as int, h as int);
                    assert((h as int) * (w as int) <= 255 * 255) by (nonlinear_arith)
                        requires
                            h <= 255,
                            w <= 255,
                    ;
                    assert(sp.pixel(k) == screen_y * w + screen_x);
                    assert(sp.bit(k) == sprite_bit(byte, col as int));
                }
                let pixel: u16 = screen_y * w + screen_x;
                if (byte & mask) > 0 && pixel as usize >= DISPLAY_SIZE {
                    proof {
                        assert(s.lands_off_display(x, y, k));
                    }
                    leaves = true;
                } else {
                    col = col + 1;
                }
            }
            if !leaves {
                row = row + 1;
            }
        }
        leaves
    }

    /// Decodes `opcode` and carries it out; returns it when the machine does
    /// not know it, leaving the state unchanged.
    fn process_opcode(&mut self, opcode: u16) -> (unknown: Option<u16>)
        requires
            !old(self)@.op_faults(opcode),
        ensures
            exists|rn: u8| final(self)@ == #[trigger] old(self)@.execute(opcode, rn),
            unknown == if CpuState::known(opcode) {
                None::<u16>
            } else {
                Some(opcode)
            },
    {
        let separate_bytes = self.split_u4(opcode);

        let kk: u16 = opcode & 0x00ff;
        let nnn: u16 = opcode & 0x0fff;
        let n: u16 = opcode & 0x000f;
        proof {
            lemma_nibbles(opcode);
        }
        let ghost s = old(self)@;
        let a: u8 = separate_bytes[0];
        let x: u8 = separate_bytes[1];
        let y: u8 = separate_bytes[2];
        let d: u8 = separate_bytes[3];
        let mut unknown: Option<u16> = None;

        match (a, x, y, d) {
            (0, 0, 0xE, 0) => self.cls(),
            (0, 0, 0xE, 0xE) => self.ret(),
            (0, _, _, _) => self.sys(),
            (1, _, _, _) => self.jp(nnn),
            (2, _, _, _) => self.call(nnn),
            (3, x, _, _) => self.se(x, kk),
            (4, x, _, _) => self.sen(x, kk),
            (5, x, y, 0) => self.sexy(x, y),
            (6, x, _, _) => self.ldxkk(x, kk),
            (7, x, _, _) => self.addxkk(x, kk),
            (8, x, y, 0) => self.ldxy(x, y),
            (8, x, y, 1) => self.or(x, y),
            (8, x, y, 2) => self.and(x, y),
            (8, x, y, 3) => self.xor(x, y),
            (8, x, y, 4) => self.add(x, y),
            (8, x, y, 5) => self.sub(x, y),
            (8, x, y, 6) => self.shr(x, y),
            (8, x, y, 7) => self.subn(x, y),
            (8, x, y, 0xE) => self.shl(x, y),
            (9, x, y, 0) => self.sne(x, y),
            (0xA, _, _, _) => self.ldi(nnn),
            (0xB, _, _, _) => self.jpv0(nnn),
            (0xC, x, _, _) => self.rnd(x, kk),
            (0xD, x, y, _) => self.drw(x, y, n as u8),
            (0xE, x, 0x9, 0xE) => self.skp(x),
            (0xE, x, 0xA, 0x1) => self.sknp(x),
            (0xF, x, 0x0, 0x7) => self.ld_v_dt(x),
            (0xF, x, 0x0, 0xA) => self.ld_k(x),
            (0xF, x, 0x1, 0x5) => self.ld_dt_v(x),
            (0xF, x, 0x1, 0x8) => self.ld_st(x),
            (0xF, x, 0x1, 0xE) => self.add_i(x),
            (0xF, x, 0x2, 0x9) => self.ld_f(x),
            (0xF, x, 0x3, 0x3) => self.ld_b(x),
            (0xF, x, 0x5, 0x5) => self.ld_i_v(x),
            (0xF, x, 0x6, 0x5) => self.ld_v_i(x),
            _ => {
                unknown = Some(opcode);
            },
        }
        proof {
            if a != 0xC {
                assert(self@ == s.execute(opcode, 0u8));
            } else {
                let rn = choose|rn: u8| self@ == #[trigger] s.rnd(x, kk, rn);
                assert(self@ == s.execute(opcode, rn));
            }
        }
        unknown
    }
}

} // verus!
