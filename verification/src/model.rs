//! The mathematical model of the CHIP-8 machine: its state as plain values and
//! sequences, the meaning of every instruction as a function from state to
//! state, and the conditions under which an instruction cannot be carried out.
use vstd::prelude::*;

verus! {

/// Bytes of addressable memory.
pub const MEMORY_SIZE: usize = 4096;

/// Address at which programs are loaded.
pub const PROGRAM_START: usize = 512;

/// Pixels of the display buffer.
pub const DISPLAY_SIZE: usize = 2048;

/// Number of keys on the hexadecimal keypad.
pub const KEY_COUNT: usize = 16;

/// Bytes taken by the built-in hexadecimal font (16 glyphs of 5 bytes).
pub const FONTSET_LEN: usize = 80;

/// Instruction cycles per second.
pub const RUN_HZ: u32 = 540;

/// Timer ticks per second.
pub const TICK_HZ: u32 = 60;

/// Instruction cycles per timer tick.
pub const TICK_DIVISOR: u32 = RUN_HZ / TICK_HZ;

/// The built-in font, glyphs 0 to F, five rows each.
pub open spec fn fontset_spec() -> Seq<u8> {
    seq![
        0xF0u8, 0x90, 0x90, 0x90, 0xF0,
        0x20, 0x60, 0x20, 0x20, 0x70,
        0xF0, 0x10, 0xF0, 0x80, 0xF0,
        0xF0, 0x10, 0xF0, 0x10, 0xF0,
        0x90, 0x90, 0xF0, 0x10, 0x10,
        0xF0, 0x80, 0xF0, 0x10, 0xF0,
        0xF0, 0x80, 0xF0, 0x90, 0xF0,
        0xF0, 0x10, 0x20, 0x40, 0x40,
        0xF0, 0x90, 0xF0, 0x90, 0xF0,
        0xF0, 0x90, 0xF0, 0x10, 0xF0,
        0xF0, 0x90, 0xF0, 0x90, 0x90,
        0xE0, 0x90, 0xE0, 0x90, 0xE0,
        0xF0, 0x80, 0x80, 0x80, 0xF0,
        0xE0, 0x90, 0x90, 0x90, 0xE0,
        0xF0, 0x80, 0xF0, 0x80, 0xF0,
        0xF0, 0x80, 0xF0, 0x80, 0x80,
    ]
}

/// The memory of a freshly made machine: the font at the bottom, zeros above.
pub open spec fn initial_memory() -> Seq<u8> {
    Seq::new(
        MEMORY_SIZE as nat,
        |a: int|
            if a < FONTSET_LEN {
                fontset_spec()[a]
            } else {
                0u8
            },
    )
}

/// The state of the machine, as seen by the specifications.
#[verifier::ext_equal]
pub ghost struct CpuState {
    pub i: u16,
    pub pc: u16,
    pub memory: Seq<u8>,
    pub v: Seq<u8>,
    pub keys: Seq<bool>,
    pub display: Seq<bool>,
    pub stack: Seq<u16>,
    pub sp: u8,
    pub dt: u8,
    pub st: u8,
    pub tick_divider_counter: u32,
    pub key_detection_index: usize,
    pub super_chip: bool,
    pub display_height: u8,
    pub display_width: u8,
}

// ----------------------------------------------------------------------------
// Instruction words
// ----------------------------------------------------------------------------

/// The most significant nibble of an instruction word: its class.
pub open spec fn nibble0(op: u16) -> u8 {
    (op / 4096) as u8
}

/// The second nibble: usually the register `x`.
pub open spec fn nibble1(op: u16) -> u8 {
    ((op / 256) % 16) as u8
}

/// The third nibble: usually the register `y`.
pub open spec fn nibble2(op: u16) -> u8 {
    ((op / 16) % 16) as u8
}

/// The least significant nibble: `n`, or the sub-operation.
pub open spec fn nibble3(op: u16) -> u8 {
    (op % 16) as u8
}

/// The low byte `kk` of an instruction word.
pub open spec fn low_byte(op: u16) -> u16 {
    op % 256
}

/// The twelve-bit address `nnn` of an instruction word.
pub open spec fn address(op: u16) -> u16 {
    op % 4096
}

/// The fields of an instruction word, computed with masks and shifts.
pub(crate) proof fn lemma_nibbles(opcode: u16)
    ensures
        ((opcode & 0xf000) >> 12) as u8 == nibble0(opcode),
        ((opcode & 0x0f00) >> 8) as u8 == nibble1(opcode),
        ((opcode & 0x00f0) >> 4) as u8 == nibble2(opcode),
        (opcode & 0x000f) as u8 == nibble3(opcode),
        opcode & 0x00ff == low_byte(opcode),
        opcode & 0x0fff == address(opcode),
        opcode & 0x000f == nibble3(opcode),
        nibble0(opcode) < 16,
        nibble1(opcode) < 16,
        nibble2(opcode) < 16,
        nibble3(opcode) < 16,
{
    assert(((opcode & 0xf000) >> 12) == opcode / 4096) by (bit_vector);
    assert(((opcode & 0x0f00) >> 8) == (opcode / 256) % 16) by (bit_vector);
    assert(((opcode & 0x00f0) >> 4) == (opcode / 16) % 16) by (bit_vector);
    assert((opcode & 0x000f) == opcode % 16) by (bit_vector);
    assert((opcode & 0x00ff) == opcode % 256) by (bit_vector);
    assert((opcode & 0x0fff) == opcode % 4096) by (bit_vector);
}

/// The big-endian word made of the bytes at `addr` and `addr + 1`.
pub open spec fn word_at(memory: Seq<u8>, addr: int) -> u16 {
    (memory[addr] * 256 + memory[addr + 1]) as u16
}

/// Whether bit `col` of a sprite row, counted from the most significant bit,
/// is set.
pub open spec fn sprite_bit(byte: u8, col: int) -> bool {
    (byte & (0x80u8 >> (col as u8))) != 0
}

/// The index of the first pressed key at or after `k`, or 16 if there is none.
pub open spec fn first_pressed_from(keys: Seq<bool>, k: int) -> int
    decreases 16 - k,
{
    if k >= 16 {
        16
    } else if keys[k] {
        k
    } else {
        first_pressed_from(keys, k + 1)
    }
}

/// A sprite placed on the display: rows of eight pixels from `memory[i]` on,
/// drawn from column `x` and row `y` of a `w` x `h` display.
#[verifier::ext_equal]
pub ghost struct Sprite {
    pub memory: Seq<u8>,
    pub i: int,
    pub x: int,
    pub y: int,
    pub w: int,
    pub h: int,
}

impl Sprite {
    /// Whether the `k`-th pixel (row `k / 8`, column `k % 8`) is set.
    pub open spec fn bit(self, k: int) -> bool {
        sprite_bit(self.memory[self.i + k / 8], k % 8)
    }

    /// The display index of the `k`-th pixel; coordinates past an edge wrap
    /// round to the opposite side.
    pub open spec fn pixel(self, k: int) -> int {
        ((self.y + k / 8) % self.h) * self.w + (self.x + k % 8) % self.w
    }

    /// Whether some set pixel among the `n` rows of the sprite lands on the
    /// display pixel `idx`.
    pub open spec fn covers(self, n: int, idx: int) -> bool {
        exists|k: int| 0 <= k < 8 * n && self.bit(k) && #[trigger] self.pixel(k) == idx
    }

    /// Whether drawing the first `k` pixels flips the display pixel `idx`:
    /// each set pixel that lands on it flips it once more.
    pub open spec fn flipped(self, k: int, idx: int) -> bool
        decreases k,
    {
        if k <= 0 {
            false
        } else {
            self.flipped(k - 1, idx) != (self.bit(k - 1) && self.pixel(k - 1) == idx)
        }
    }
}

impl CpuState {
    /// A freshly made machine: font loaded, registers and timers zero, program
    /// counter and `I` at the program start, display 64 x 32 and dark.
    pub open spec fn initial() -> CpuState {
        CpuState {
            i: PROGRAM_START as u16,
            pc: PROGRAM_START as u16,
            memory: initial_memory(),
            v: Seq::new(16, |k: int| 0u8),
            keys: Seq::new(KEY_COUNT as nat, |k: int| false),
            display: Seq::new(DISPLAY_SIZE as nat, |k: int| false),
            stack: Seq::new(16, |k: int| 0u16),
            sp: 0,
            dt: 0,
            st: 0,
            tick_divider_counter: 0,
            key_detection_index: 0,
            super_chip: false,
            display_height: 32,
            display_width: 64,
        }
    }

    // ------------------------------------------------------------------------
    // Small updates
    // ------------------------------------------------------------------------
    pub open spec fn set_v(self, x: int, val: u8) -> CpuState {
        CpuState { v: self.v.update(x, val), ..self }
    }

    pub open spec fn set_pc(self, pc: int) -> CpuState {
        CpuState { pc: pc as u16, ..self }
    }

    pub open spec fn set_i(self, i: int) -> CpuState {
        CpuState { i: i as u16, ..self }
    }

    /// Skips the next instruction when `cond` holds.
    pub open spec fn skip_if(self, cond: bool) -> CpuState {
        if cond {
            self.set_pc(self.pc + 2)
        } else {
            self
        }
    }

    /// The source register of the shift instructions: `Vx` on SUPER-CHIP,
    /// `Vy` otherwise.
    pub open spec fn shift_source(self, x: u8, y: u8) -> u8 {
        if self.super_chip {
            self.v[x as int]
        } else {
            self.v[y as int]
        }
    }

    /// The machine with a program copied into memory from address 512 on;
    /// what does not fit is left out.
    pub open spec fn load(self, game: Seq<u8>) -> CpuState {
        CpuState {
            memory: Seq::new(
                MEMORY_SIZE as nat,
                |a: int|
                    if PROGRAM_START <= a < PROGRAM_START + game.len() {
                        game[a - PROGRAM_START]
                    } else {
                        self.memory[a]
                    },
            ),
            ..self
        }
    }

    // ------------------------------------------------------------------------
    // Timers
    // ------------------------------------------------------------------------
    /// One 60 Hz timer tick: both timers count down to zero.
    pub open spec fn tick(self) -> CpuState {
        CpuState {
            dt: if self.dt > 0 { (self.dt - 1) as u8 } else { 0 },
            st: if self.st > 0 { (self.st - 1) as u8 } else { 0 },
            ..self
        }
    }

    // ------------------------------------------------------------------------
    // Instructions
    // ------------------------------------------------------------------------
    /// 00E0: clear the display.
    pub open spec fn cls(self) -> CpuState {
        CpuState { display: Seq::new(DISPLAY_SIZE as nat, |k: int| false), ..self }
    }

    /// 00EE: return from a subroutine.
    pub open spec fn ret(self) -> CpuState {
        CpuState {
            pc: self.stack[self.sp as int],
            sp: if self.sp > 0 { (self.sp - 1) as u8 } else { 0 },
            ..self
        }
    }

    /// 1nnn: jump.
    pub open spec fn jp(self, nnn: u16) -> CpuState {
        self.set_pc(nnn as int)
    }

    /// The stack pointer after a call: one more, modulo 256.
    pub open spec fn call_sp(self) -> u8 {
        ((self.sp + 1) % 256) as u8
    }

    /// 2nnn: call a subroutine.
    pub open spec fn call(self, nnn: u16) -> CpuState {
        CpuState {
            sp: self.call_sp(),
            stack: self.stack.update(self.call_sp() as int, self.pc),
            pc: nnn,
            ..self
        }
    }

    /// 3xkk: skip if `Vx == kk`.
    pub open spec fn se(self, x: u8, kk: u16) -> CpuState {
        self.skip_if(self.v[x as int] == kk)
    }

    /// 4xkk: skip if `Vx != kk`.
    pub open spec fn sen(self, x: u8, kk: u16) -> CpuState {
        self.skip_if(self.v[x as int] != kk)
    }

    /// 5xy0: skip if `Vx == Vy`.
    pub open spec fn sexy(self, x: u8, y: u8) -> CpuState {
        self.skip_if(self.v[x as int] == self.v[y as int])
    }

    /// 6xkk: `Vx = kk`.
    pub open spec fn ldxkk(self, x: u8, kk: u16) -> CpuState {
        self.set_v(x as int, (kk % 256) as u8)
    }

    /// 7xkk: `Vx = Vx + kk`, wrapping, VF untouched.
    pub open spec fn addxkk(self, x: u8, kk: u16) -> CpuState {
        self.set_v(x as int, ((self.v[x as int] + kk % 256) % 256) as u8)
    }

    /// 8xy0: `Vx = Vy`.
    pub open spec fn ldxy(self, x: u8, y: u8) -> CpuState {
        self.set_v(x as int, self.v[y as int])
    }

    /// 8xy1: `Vx = Vx | Vy`, then `VF = 0`.
    pub open spec fn or(self, x: u8, y: u8) -> CpuState {
        self.set_v(x as int, self.v[x as int] | self.v[y as int]).set_v(15, 0)
    }

    /// 8xy2: `Vx = Vx & Vy`, then `VF = 0`.
    pub open spec fn and(self, x: u8, y: u8) -> CpuState {
        self.set_v(x as int, self.v[x as int] & self.v[y as int]).set_v(15, 0)
    }

    /// 8xy3: `Vx = Vx ^ Vy`, then `VF = 0`.
    pub open spec fn xor(self, x: u8, y: u8) -> CpuState {
        self.set_v(x as int, self.v[x as int] ^ self.v[y as int]).set_v(15, 0)
    }

    /// 8xy4: `Vx = Vx + Vy` modulo 256, then `VF` = carry.
    pub open spec fn add(self, x: u8, y: u8) -> CpuState {
        let sum = self.v[x as int] + self.v[y as int];
        self.set_v(x as int, (sum % 256) as u8).set_v(15, if sum > 255 { 1 } else { 0 })
    }

    /// 8xy5: `Vx = Vx - Vy` modulo 256, then `VF` = 1 unless it borrowed.
    pub open spec fn sub(self, x: u8, y: u8) -> CpuState {
        let vx = self.v[x as int];
        let vy = self.v[y as int];
        self.set_v(x as int, ((vx - vy + 256) % 256) as u8).set_v(
            15,
            if vx >= vy { 1 } else { 0 },
        )
    }

    /// 8xy6: shift right by one, `VF` = the bit shifted out.
    pub open spec fn shr(self, x: u8, y: u8) -> CpuState {
        let src = self.shift_source(x, y);
        self.set_v(x as int, src / 2).set_v(15, src % 2)
    }

    /// 8xy7: `Vx = Vy - Vx` modulo 256, then `VF` = 1 unless it borrowed.
    pub open spec fn subn(self, x: u8, y: u8) -> CpuState {
        let vx = self.v[x as int];
        let vy = self.v[y as int];
        self.set_v(x as int, ((vy - vx + 256) % 256) as u8).set_v(
            15,
            if vy >= vx { 1 } else { 0 },
        )
    }

    /// 8xyE: shift left by one, `VF` = the bit shifted out.
    pub open spec fn shl(self, x: u8, y: u8) -> CpuState {
        let src = self.shift_source(x, y);
        self.set_v(x as int, ((src * 2) % 256) as u8).set_v(15, src / 128)
    }

    /// 9xy0: skip if `Vx != Vy`.
    pub open spec fn sne(self, x: u8, y: u8) -> CpuState {
        self.skip_if(self.v[x as int] != self.v[y as int])
    }

    /// Annn: `I = nnn`.
    pub open spec fn ldi(self, nnn: u16) -> CpuState {
        self.set_i(nnn as int)
    }

    /// Bnnn: jump to `nnn + V0`.
    pub open spec fn jpv0(self, nnn: u16) -> CpuState {
        self.set_pc(nnn + self.v[0])
    }

    /// Cxkk with the random byte `rn`: `Vx = rn & kk`.
    pub open spec fn rnd(self, x: u8, kk: u16, rn: u8) -> CpuState {
        self.set_v(x as int, rn & ((kk % 256) as u8))
    }

    /// Ex9E: skip if the key `Vx` is down.
    pub open spec fn skp(self, x: u8) -> CpuState {
        self.skip_if(self.keys[self.v[x as int] as int])
    }

    /// ExA1: skip if the key `Vx` is up.
    pub open spec fn sknp(self, x: u8) -> CpuState {
        self.skip_if(!self.keys[self.v[x as int] as int])
    }

    /// Fx07: `Vx = DT`.
    pub open spec fn ld_v_dt(self, x: u8) -> CpuState {
        self.set_v(x as int, self.dt)
    }

    /// Fx0A: wait for a key press, then store the key in `Vx`.
    ///
    /// While no key is down the instruction repeats. When keys are down, the
    /// lowest-numbered one is stored in `Vx` and the sound timer is set to 4
    /// (a short beep), and execution goes on.
    pub open spec fn ld_k(self, x: u8) -> CpuState {
        let k = first_pressed_from(self.keys, 0);
        if k < 16 {
            CpuState { st: 4, ..self.set_v(x as int, k as u8) }
        } else {
            self.set_pc(self.pc - 2)
        }
    }

    /// Fx15: `DT = Vx`.
    pub open spec fn ld_dt_v(self, x: u8) -> CpuState {
        CpuState { dt: self.v[x as int], ..self }
    }

    /// Fx18: `ST = Vx`.
    pub open spec fn ld_st(self, x: u8) -> CpuState {
        CpuState { st: self.v[x as int], ..self }
    }

    /// Fx1E: `I = I + Vx`.
    pub open spec fn add_i(self, x: u8) -> CpuState {
        self.set_i(self.i + self.v[x as int])
    }

    /// Fx29: `I` = address of the font glyph for `Vx`.
    pub open spec fn ld_f(self, x: u8) -> CpuState {
        self.set_i(self.v[x as int] * 5)
    }

    /// Fx33: the decimal digits of `Vx` at `I`, `I + 1` and `I + 2`.
    pub open spec fn ld_b(self, x: u8) -> CpuState {
        let val = self.v[x as int];
        CpuState {
            memory: self.memory.update(self.i as int, (val / 100) as u8).update(
                self.i + 1,
                (val % 100 / 10) as u8,
            ).update(self.i + 2, (val % 10) as u8),
            ..self
        }
    }

    /// Fx55: store `V0..=Vx` at `I..=I + x`, then `I = I + x + 1`.
    pub open spec fn ld_i_v(self, x: u8) -> CpuState {
        CpuState {
            memory: Seq::new(
                self.memory.len(),
                |a: int|
                    if self.i <= a <= self.i + x {
                        self.v[a - self.i]
                    } else {
                        self.memory[a]
                    },
            ),
            i: (self.i + x + 1) as u16,
            ..self
        }
    }

    /// Fx65: load `V0..=Vx` from `I..=I + x`, then `I = I + x + 1`.
    pub open spec fn ld_v_i(self, x: u8) -> CpuState {
        CpuState {
            v: Seq::new(
                self.v.len(),
                |k: int|
                    if k <= x {
                        self.memory[self.i + k]
                    } else {
                        self.v[k]
                    },
            ),
            i: (self.i + x + 1) as u16,
            ..self
        }
    }

    // ------------------------------------------------------------------------
    // Drawing
    // ------------------------------------------------------------------------
    /// The state in which a sprite is drawn: `VF` is cleared first, so the
    /// coordinates are read after that.
    pub open spec fn draw_base(self) -> CpuState {
        self.set_v(15, 0)
    }

    /// The sprite drawn by Dxyn: it starts at `I`, at the coordinates in `Vx`
    /// and `Vy` (read after `VF` is cleared), on the display's geometry.
    pub open spec fn sprite(self, x: u8, y: u8) -> Sprite {
        Sprite {
            memory: self.memory,
            i: self.i as int,
            x: self.draw_base().v[x as int] as int,
            y: self.draw_base().v[y as int] as int,
            w: self.display_width as int,
            h: self.display_height as int,
        }
    }

    /// The `k`-th sprite pixel is set and, when it is drawn, lands on a lit
    /// pixel, which it erases.
    pub open spec fn erases_at(self, x: u8, y: u8, k: int) -> bool {
        let sp = self.sprite(x, y);
        &&& sp.bit(k)
        &&& 0 <= sp.pixel(k) < self.display.len()
        &&& self.display[sp.pixel(k)] != sp.flipped(k, sp.pixel(k))
    }

    /// Whether drawing erases a pixel that was lit when it was drawn on.
    pub open spec fn collides(self, x: u8, y: u8, n: u8) -> bool {
        exists|k: int| 0 <= k < 8 * n && #[trigger] self.erases_at(x, y, k)
    }

    /// The display after the sprite is XORed onto it, pixel by pixel.
    pub open spec fn drawn_display(self, x: u8, y: u8, n: u8) -> Seq<bool> {
        Seq::new(
            self.display.len(),
            |idx: int| self.display[idx] != self.sprite(x, y).flipped(8 * n, idx),
        )
    }

    /// Dxyn: XOR the `n`-row sprite at `I` onto the display at `(Vx, Vy)`,
    /// parts past an edge wrapping round to the opposite side; `VF` = 1 if a
    /// lit pixel was erased, 0 otherwise. Late in a timer period the
    /// instruction waits instead (it repeats).
    pub open spec fn drw(self, x: u8, y: u8, n: u8) -> CpuState {
        if self.tick_divider_counter < TICK_DIVISOR / 2 {
            CpuState {
                display: self.drawn_display(x, y, n),
                ..self.set_v(15, if self.collides(x, y, n) { 1 } else { 0 })
            }
        } else {
            self.set_pc(self.pc - 2)
        }
    }

    // ------------------------------------------------------------------------
    // Decoding
    // ------------------------------------------------------------------------
    /// Whether `op` is an instruction the machine knows.
    pub open spec fn known(op: u16) -> bool {
        let a = nibble0(op);
        let y = nibble2(op);
        let d = nibble3(op);
        if a == 5 || a == 9 {
            d == 0
        } else if a == 8 {
            d <= 7 || d == 0xE
        } else if a == 0xE {
            (y == 9 && d == 0xE) || (y == 0xA && d == 1)
        } else if a == 0xF {
            (y == 0 && (d == 7 || d == 0xA)) || (y == 1 && (d == 5 || d == 8 || d == 0xE)) || (y
                == 2 && d == 9) || (y == 3 && d == 3) || ((y == 5 || y == 6) && d == 5)
        } else {
            true
        }
    }

    /// The effect of the instruction `op`; `rn` is the random byte used by
    /// Cxkk. An unknown instruction changes nothing.
    pub open spec fn execute(self, op: u16, rn: u8) -> CpuState {
        let a = nibble0(op);
        let x = nibble1(op);
        let y = nibble2(op);
        let d = nibble3(op);
        let kk = low_byte(op);
        let nnn = address(op);
        if a == 0 {
            if x == 0 && y == 0xE && d == 0 {
                self.cls()
            } else if x == 0 && y == 0xE && d == 0xE {
                self.ret()
            } else {
                self
            }
        } else if a == 1 {
            self.jp(nnn)
        } else if a == 2 {
            self.call(nnn)
        } else if a == 3 {
            self.se(x, kk)
        } else if a == 4 {
            self.sen(x, kk)
        } else if a == 5 {
            if d == 0 {
                self.sexy(x, y)
            } else {
                self
            }
        } else if a == 6 {
            self.ldxkk(x, kk)
        } else if a == 7 {
            self.addxkk(x, kk)
        } else if a == 8 {
            if d == 0 {
                self.ldxy(x, y)
            } else if d == 1 {
                self.or(x, y)
            } else if d == 2 {
                self.and(x, y)
            } else if d == 3 {
                self.xor(x, y)
            } else if d == 4 {
                self.add(x, y)
            } else if d == 5 {
                self.sub(x, y)
            } else if d == 6 {
                self.shr(x, y)
            } else if d == 7 {
                self.subn(x, y)
            } else if d == 0xE {
                self.shl(x, y)
            } else {
                self
            }
        } else if a == 9 {
            if d == 0 {
                self.sne(x, y)
            } else {
                self
            }
        } else if a == 0xA {
            self.ldi(nnn)
        } else if a == 0xB {
            self.jpv0(nnn)
        } else if a == 0xC {
            self.rnd(x, kk, rn)
        } else if a == 0xD {
            self.drw(x, y, d)
        } else if a == 0xE {
            if y == 9 && d == 0xE {
                self.skp(x)
            } else if y == 0xA && d == 1 {
                self.sknp(x)
            } else {
                self
            }
        } else {
            if y == 0 && d == 7 {
                self.ld_v_dt(x)
            } else if y == 0 && d == 0xA {
                self.ld_k(x)
            } else if y == 1 && d == 5 {
                self.ld_dt_v(x)
            } else if y == 1 && d == 8 {
                self.ld_st(x)
            } else if y == 1 && d == 0xE {
                self.add_i(x)
            } else if y == 2 && d == 9 {
                self.ld_f(x)
            } else if y == 3 && d == 3 {
                self.ld_b(x)
            } else if y == 5 && d == 5 {
                self.ld_i_v(x)
            } else if y == 6 && d == 5 {
                self.ld_v_i(x)
            } else {
                self
            }
        }
    }

    // ------------------------------------------------------------------------
    // Faults: what an instruction cannot do
    // ------------------------------------------------------------------------
    /// The `k`-th sprite pixel is set and lands past the end of the display
    /// buffer (possible only with a display geometry larger than the buffer).
    pub open spec fn lands_off_display(self, x: u8, y: u8, k: int) -> bool {
        self.sprite(x, y).bit(k) && self.sprite(x, y).pixel(k) >= DISPLAY_SIZE
    }

    /// Some set pixel of the sprite lands past the end of the display buffer.
    pub open spec fn draws_off_display(self, x: u8, y: u8, n: u8) -> bool {
        exists|k: int| 0 <= k < 8 * n && #[trigger] self.lands_off_display(x, y, k)
    }

    /// Drawing divides by a zero display dimension, reads memory past its
    /// end, or flips a pixel past the end of the display buffer.
    pub open spec fn drw_faults(self, x: u8, y: u8, n: u8) -> bool {
        &&& self.tick_divider_counter < TICK_DIVISOR / 2
        &&& n > 0
        &&& {
            ||| self.display_height == 0
            ||| self.display_width == 0
            ||| self.i + n > MEMORY_SIZE
            ||| self.draws_off_display(x, y, n)
        }
    }

    /// Whether the instruction `op` would index outside the machine's arrays
    /// or overflow a register, counting the program counter: a skip taken at
    /// the top of the address space, or a wait that steps back from below 2.
    pub open spec fn op_faults(self, op: u16) -> bool {
        ||| self.op_bounds_faults(op)
        ||| (self.skips(op) && self.pc + 2 > u16::MAX)
        ||| (self.waits(op) && self.pc < 2)
    }

    /// Whether `op` skips the next instruction in this state (3xkk, 4xkk,
    /// 5xy0, 9xy0, Ex9E, ExA1 with their condition met).
    pub open spec fn skips(self, op: u16) -> bool {
        let a = nibble0(op);
        let x = nibble1(op);
        let y = nibble2(op);
        let d = nibble3(op);
        let vx = self.v[x as int];
        let vy = self.v[y as int];
        if a == 3 {
            vx == low_byte(op)
        } else if a == 4 {
            vx != low_byte(op)
        } else if a == 5 {
            d == 0 && vx == vy
        } else if a == 9 {
            d == 0 && vx != vy
        } else if a == 0xE {
            (y == 9 && d == 0xE && self.keys[vx as int]) || (y == 0xA && d == 1
                && !self.keys[vx as int])
        } else {
            false
        }
    }

    /// Whether `op` repeats itself by stepping the program counter back:
    /// Dxyn late in a timer period, Fx0A with no key down.
    pub open spec fn waits(self, op: u16) -> bool {
        let a = nibble0(op);
        let y = nibble2(op);
        let d = nibble3(op);
        if a == 0xD {
            self.tick_divider_counter >= TICK_DIVISOR / 2
        } else if a == 0xF {
            y == 0 && d == 0xA && first_pressed_from(self.keys, 0) >= 16
        } else {
            false
        }
    }

    /// Whether the instruction `op` would index outside the machine's arrays
    /// or overflow a register other than the program counter.
    pub open spec fn op_bounds_faults(self, op: u16) -> bool {
        let a = nibble0(op);
        let x = nibble1(op);
        let y = nibble2(op);
        let d = nibble3(op);
        if a == 0 {
            x == 0 && y == 0xE && d == 0xE && self.sp >= 16
        } else if a == 2 {
            self.call_sp() >= 16
        } else if a == 0xD {
            self.drw_faults(x, y, d)
        } else if a == 0xE {
            ((y == 9 && d == 0xE) || (y == 0xA && d == 1)) && self.v[x as int] >= 16
        } else if a == 0xF {
            if y == 1 && d == 0xE {
                self.i + self.v[x as int] > u16::MAX
            } else if y == 2 && d == 9 {
                self.v[x as int] * 5 > u8::MAX
            } else if y == 3 && d == 3 {
                self.i + 2 >= MEMORY_SIZE
            } else if (y == 5 || y == 6) && d == 5 {
                self.i + x >= MEMORY_SIZE
            } else {
                false
            }
        } else {
            false
        }
    }

    // ------------------------------------------------------------------------
    // The instruction cycle
    // ------------------------------------------------------------------------
    /// The instruction word at the program counter.
    pub open spec fn opcode(self) -> u16 {
        word_at(self.memory, self.pc as int)
    }

    /// The state after fetching: the program counter moved past the
    /// instruction, and the cycle counted towards the next timer tick.
    pub open spec fn fetched(self) -> CpuState {
        let pc = if self.pc + 2 > u16::MAX { u16::MAX } else { (self.pc + 2) as u16 };
        let count = if self.tick_divider_counter + 1 > u32::MAX {
            u32::MAX
        } else {
            (self.tick_divider_counter + 1) as u32
        };
        let s = CpuState { pc, tick_divider_counter: count, ..self };
        if count >= TICK_DIVISOR {
            CpuState { tick_divider_counter: 0, ..s }.tick()
        } else {
            s
        }
    }

    /// One instruction cycle. With the program counter past the end of memory
    /// nothing happens.
    pub open spec fn cycle(self, rn: u8) -> CpuState {
        if self.pc >= MEMORY_SIZE {
            self
        } else {
            self.fetched().execute(self.opcode(), rn)
        }
    }

    /// Whether a cycle cannot be carried out: the instruction word would be
    /// read past the end of memory, or the instruction faults.
    pub open spec fn cycle_faults(self) -> bool {
        ||| self.pc == MEMORY_SIZE - 1
        ||| (self.pc < MEMORY_SIZE - 1 && self.fetched().op_faults(self.opcode()))
    }

    /// Whether the cycle reaches an instruction the machine does not know.
    pub open spec fn cycle_unknown(self) -> bool {
        self.pc < MEMORY_SIZE && !CpuState::known(self.opcode())
    }

    /// The arrays have the machine's sizes.
    pub open spec fn sizes_ok(self) -> bool {
        &&& self.memory.len() == MEMORY_SIZE
        &&& self.v.len() == 16
        &&& self.keys.len() == KEY_COUNT
        &&& self.display.len() == DISPLAY_SIZE
        &&& self.stack.len() == 16
    }
}

} // verus!
