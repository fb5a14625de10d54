//! The instructions of the machine, one method each. Every method carries out
//! exactly the step that `CpuState` gives the same name.
use vstd::prelude::*;

use crate::cpu::Cpu;
use crate::model::{first_pressed_from, CpuState, MEMORY_SIZE};
use crate::random::random_byte;

verus! {

/// Keys that are up do not change which key is the first pressed one.
proof fn lemma_first_pressed_skip(keys: Seq<bool>, m: int, k: int)
    requires
        0 <= m <= k <= 16,
        forall|j: int| m <= j < k ==> !#[trigger] keys[j],
    ensures
        first_pressed_from(keys, m) == first_pressed_from(keys, k),
    decreases k - m,
{
    if m < k {
        lemma_first_pressed_skip(keys, m + 1, k);
    }
}

impl Cpu {
    /// 0nnn - SYS addr: ignored by modern interpreters.
    pub fn sys(&mut self)
        ensures
            *final(self) == *old(self),
    {
    }

    /// 00E0 - CLS: clear the display.
    pub fn cls(&mut self)
        ensures
            final(self)@ == old(self)@.cls(),
    {
        self.display.clear();
        assert(self@.display =~= old(self)@.cls().display);
    }

    /// 00EE - RET: return from a subroutine. The program counter is taken
    /// from the top of the stack, then the stack pointer goes down by one
    /// (staying at zero).
    pub fn ret(&mut self)
        requires
            old(self).sp < 16,
        ensures
            final(self)@ == old(self)@.ret(),
    {
        self.pc = self.stack[self.sp as usize];
        self.sp = self.sp.saturating_sub(1);
    }

    /// 1nnn - JP addr: jump to `nnn`.
    pub fn jp(&mut self, nnn: u16)
        ensures
            final(self)@ == old(self)@.jp(nnn),
    {
        self.pc = nnn;
    }

    /// 2nnn - CALL addr: the stack pointer goes up by one (wrapping), the
    /// program counter is stored there, then the program counter is set to
    /// `nnn`.
    pub fn call(&mut self, nnn: u16)
        requires
            old(self)@.call_sp() < 16,
        ensures
            final(self)@ == old(self)@.call(nnn),
    {
        self.sp = self.sp.wrapping_add(1);
        self.stack[self.sp as usize] = self.pc;
        self.pc = nnn;
    }

    /// 3xkk - SE Vx, byte: skip the next instruction if `Vx == kk`.
    pub fn se(&mut self, x: u8, kk: u16)
        requires
            x < 16,
            old(self).v@[x as int] == kk ==> old(self).pc + 2 <= u16::MAX,
        ensures
            final(self)@ == old(self)@.se(x, kk),
    {
        if self.v[x as usize] as u16 == kk {
            self.pc = self.pc + 2;
        }
    }

    /// 4xkk - SNE Vx, byte: skip the next instruction if `Vx != kk`.
    pub fn sen(&mut self, x: u8, kk: u16)
        requires
            x < 16,
            old(self).v@[x as int] != kk ==> old(self).pc + 2 <= u16::MAX,
        ensures
            final(self)@ == old(self)@.sen(x, kk),
    {
        if self.v[x as usize] as u16 != kk {
            self.pc = self.pc + 2;
        }
    }

    /// 5xy0 - SE Vx, Vy: skip the next instruction if `Vx == Vy`.
    pub fn sexy(&mut self, x: u8, y: u8)
        requires
            x < 16,
            y < 16,
            old(self).v@[x as int] == old(self).v@[y as int] ==> old(self).pc + 2 <= u16::MAX,
        ensures
            final(self)@ == old(self)@.sexy(x, y),
    {
        if self.v[x as usize] == self.v[y as usize] {
            self.pc = self.pc + 2;
        }
    }

    /// 6xkk - LD Vx, byte: `Vx = kk`.
    pub fn ldxkk(&mut self, x: u8, kk: u16)
        requires
            x < 16,
        ensures
            final(self)@ == old(self)@.ldxkk(x, kk),
    {
        assert(kk as u8 == (kk % 256) as u8) by (bit_vector);
        self.v[x as usize] = kk as u8;
    }

    /// 7xkk - ADD Vx, byte: `Vx = Vx + kk`, wrapping; `VF` is left alone.
    pub fn addxkk(&mut self, x: u8, kk: u16)
        requires
            x < 16,
        ensures
            final(self)@ == old(self)@.addxkk(x, kk),
    {
        let mut vx: u8 = self.v[x as usize];
        assert(kk as u8 == (kk % 256) as u8) by (bit_vector);
        vx = vx.wrapping_add(kk as u8);
        self.v[x as usize] = vx;
    }

    /// 8xy0 - LD Vx, Vy: `Vx = Vy`.
    pub fn ldxy(&mut self, x: u8, y: u8)
        requires
            x < 16,
            y < 16,
        ensures
            final(self)@ == old(self)@.ldxy(x, y),
    {
        self.v[x as usize] = self.v[y as usize];
    }

    /// 8xy1 - OR Vx, Vy: `Vx = Vx | Vy`, then `VF = 0`.
    pub fn or(&mut self, x: u8, y: u8)
        requires
            x < 16,
            y < 16,
        ensures
            final(self)@ == old(self)@.or(x, y),
    {
        let res: u8 = self.v[x as usize] | self.v[y as usize];
        self.v[x as usize] = res;
        self.v[0xf] = 0;
    }

    /// 8xy2 - AND Vx, Vy: `Vx = Vx & Vy`, then `VF = 0`.
    pub fn and(&mut self, x: u8, y: u8)
        requires
            x < 16,
            y < 16,
        ensures
            final(self)@ == old(self)@.and(x, y),
    {
        let res: u8 = self.v[x as usize] & self.v[y as usize];
        self.v[x as usize] = res;
        self.v[0xf] = 0;
    }

    /// 8xy3 - XOR Vx, Vy: `Vx = Vx ^ Vy`, then `VF = 0`.
    pub fn xor(&mut self, x: u8, y: u8)
        requires
            x < 16,
            y < 16,
        ensures
            final(self)@ == old(self)@.xor(x, y),
    {
        let res: u8 = self.v[x as usize] ^ self.v[y as usize];
        self.v[x as usize] = res;
        self.v[0xf] = 0;
    }

    /// 8xy4 - ADD Vx, Vy: the low eight bits of `Vx + Vy` go to `Vx`, then
    /// `VF` is 1 if the sum exceeded 255 and 0 otherwise.
    pub fn add(&mut self, x: u8, y: u8)
        requires
            x < 16,
            y < 16,
        ensures
            final(self)@ == old(self)@.add(x, y),
    {
        let vx: u8 = self.v[x as usize];
        let vy: u8 = self.v[y as usize];
        let sum: u16 = vx as u16 + vy as u16;
        let new_vx: u8 = (sum % 256) as u8;
        let carry: bool = sum > 255;
        let vf: u8 = if carry { 1 } else { 0 };
        self.v[x as usize] = new_vx;
        self.v[0xf] = vf;
    }

    /// 8xy5 - SUB Vx, Vy: `Vx = Vx - Vy` modulo 256, then `VF` is 0 if the
    /// subtraction borrowed and 1 otherwise.
    pub fn sub(&mut self, x: u8, y: u8)
        requires
            x < 16,
            y < 16,
        ensures
            final(self)@ == old(self)@.sub(x, y),
    {
        let vx: u8 = self.v[x as usize];
        let vy: u8 = self.v[y as usize];
        let res: u8 = vx.wrapping_sub(vy);
        let borrow: bool = vx < vy;
        let carry: u8 = if borrow { 0 } else { 1 };
        self.v[x as usize] = res;
        self.v[0xf] = carry;
    }

    /// 8xy6 - SHR Vx {, Vy}: the source (`Vx` on SUPER-CHIP, `Vy` otherwise)
    /// shifted right by one goes to `Vx`, then `VF` is the bit shifted out.
    pub fn shr(&mut self, x: u8, y: u8)
        requires
            x < 16,
            y < 16,
        ensures
            final(self)@ == old(self)@.shr(x, y),
    {
        let vx: u8;
        if self.super_chip {
            vx = self.v[x as usize];
        } else {
            vx = self.v[y as usize];
        }
        let carry: u8 = vx & 0x1;
        let res: u8 = vx >> 1;
        assert(vx & 0x1 == vx % 2) by (bit_vector);
        assert(vx >> 1 == vx / 2) by (bit_vector);
        self.v[x as usize] = res;
        self.v[0xf] = carry;
    }

    /// 8xy7 - SUBN Vx, Vy: `Vx = Vy - Vx` modulo 256, then `VF` is 0 if the
    /// subtraction borrowed and 1 otherwise.
    pub fn subn(&mut self, x: u8, y: u8)
        requires
            x < 16,
            y < 16,
        ensures
            final(self)@ == old(self)@.subn(x, y),
    {
        let vx: u8 = self.v[x as usize];
        let vy: u8 = self.v[y as usize];
        let res: u8 = vy.wrapping_sub(vx);
        let borrow: bool = vy < vx;
        let carry: u8 = if borrow { 0 } else { 1 };
        self.v[x as usize] = res;
        self.v[0xf] = carry;
    }

    /// 8xyE - SHL Vx {, Vy}: the source (`Vx` on SUPER-CHIP, `Vy` otherwise)
    /// shifted left by one goes to `Vx`, then `VF` is the bit shifted out.
    pub fn shl(&mut self, x: u8, y: u8)
        requires
            x < 16,
            y < 16,
        ensures
            final(self)@ == old(self)@.shl(x, y),
    {
        let vx: u8;
        if self.super_chip {
            vx = self.v[x as usize];
        } else {
            vx = self.v[y as usize];
        }
        let carry: u8 = (vx >> 7) & 0x1;
        let res: u8 = vx << 1;
        assert((vx >> 7) & 0x1 == vx / 128) by (bit_vector);
        assert(vx << 1 == (vx * 2) % 256) by (bit_vector);
        self.v[x as usize] = res;
        self.v[0xf] = carry;
    }

    /// 9xy0 - SNE Vx, Vy: skip the next instruction if `Vx != Vy`.
    pub fn sne(&mut self, x: u8, y: u8)
        requires
            x < 16,
            y < 16,
            old(self).v@[x as int] != old(self).v@[y as int] ==> old(self).pc + 2 <= u16::MAX,
        ensures
            final(self)@ == old(self)@.sne(x, y),
    {
        let vx: u8 = self.v[x as usize];
        let vy: u8 = self.v[y as usize];
        if vx != vy {
            self.pc = self.pc + 2;
        }
    }

    /// Annn - LD I, addr: `I = nnn`.
    pub fn ldi(&mut self, nnn: u16)
        ensures
            final(self)@ == old(self)@.ldi(nnn),
    {
        self.i = nnn;
    }

    /// Bnnn - JP V0, addr: jump to `nnn + V0`.
    pub fn jpv0(&mut self, nnn: u16)
        requires
            nnn + old(self).v@[0] <= u16::MAX,
        ensures
            final(self)@ == old(self)@.jpv0(nnn),
    {
        self.pc = nnn + (self.v[0] as u16);
    }

    /// Cxkk - RND Vx, byte: `Vx` = a random byte ANDed with `kk`.
    pub fn rnd(&mut self, x: u8, kk: u16)
        requires
            x < 16,
        ensures
            exists|rn: u8| final(self)@ == #[trigger] old(self)@.rnd(x, kk, rn),
    {
        let rn: u8 = random_byte();
        self.apply_rnd(x, kk, rn);
    }

    /// Cxkk with the random byte `rn` already drawn: `Vx = rn & kk`.
    pub fn apply_rnd(&mut self, x: u8, kk: u16, rn: u8)
        requires
            x < 16,
        ensures
            final(self)@ == old(self)@.rnd(x, kk, rn),
    {
        let val: u8 = ((rn as u16) & kk) as u8;
        assert(((rn as u16) & kk) as u8 == rn & ((kk % 256) as u8)) by (bit_vector);
        self.v[x as usize] = val;
    }

    /// Ex9E - SKP Vx: skip the next instruction if the key `Vx` is down.
    pub fn skp(&mut self, x: u8)
        requires
            x < 16,
            old(self).v@[x as int] < 16,
            old(self).keypad.keys@[old(self).v@[x as int] as int] ==> old(self).pc + 2 <= u16::MAX,
        ensures
            final(self)@ == old(self)@.skp(x),
    {
        let key: usize = self.v[x as usize] as usize;
        if self.keypad.keys[key] {
            self.pc = self.pc + 2;
        }
    }

    /// ExA1 - SKNP Vx: skip the next instruction if the key `Vx` is up.
    pub fn sknp(&mut self, x: u8)
        requires
            x < 16,
            old(self).v@[x as int] < 16,
            !old(self).keypad.keys@[old(self).v@[x as int] as int] ==> old(self).pc + 2
                <= u16::MAX,
        ensures
            final(self)@ == old(self)@.sknp(x),
    {
        let key: usize = self.v[x as usize] as usize;
        if !self.keypad.keys[key] {
            self.pc = self.pc + 2;
        }
    }

    /// Fx07 - LD Vx, DT: `Vx = DT`.
    pub fn ld_v_dt(&mut self, x: u8)
        requires
            x < 16,
        ensures
            final(self)@ == old(self)@.ld_v_dt(x),
    {
        self.v[x as usize] = self.dt;
    }

    /// Fx0A - LD Vx, K: wait for a key press, then store the key in `Vx`
    /// (see `CpuState::ld_k`).
    pub fn ld_k(&mut self, x: u8)
        requires
            x < 16,
            first_pressed_from(old(self).keypad.keys@, 0) == 16 ==> old(self).pc >= 2,
        ensures
            final(self)@ == old(self)@.ld_k(x),
    {
        let mut pressed: bool = false;
        let mut k: usize = 0;
        while k < 16 && !pressed
            invariant
                k <= 16,
                *self == *old(self),
                pressed ==> k < 16 && self.keypad.keys@[k as int],
                forall|j: int| 0 <= j < k ==> !#[trigger] self.keypad.keys@[j],
            decreases 16 - k + (if pressed { 0int } else { 1int }),
        {
            if self.keypad.keys[k] {
                pressed = true;
            } else {
                k = k + 1;
            }
        }
        proof {
            lemma_first_pressed_skip(self.keypad.keys@, 0, k as int);
        }

        if pressed {
            self.v[x as usize] = k as u8;
            self.st = 4;
        } else {
            // block until something is pressed
            self.pc = self.pc - 2;
        }
    }

    /// Fx15 - LD DT, Vx: `DT = Vx`.
    pub fn ld_dt_v(&mut self, x: u8)
        requires
            x < 16,
        ensures
            final(self)@ == old(self)@.ld_dt_v(x),
    {
        self.dt = self.v[x as usize];
    }

    /// Fx18 - LD ST, Vx: `ST = Vx`.
    pub fn ld_st(&mut self, x: u8)
        requires
            x < 16,
        ensures
            final(self)@ == old(self)@.ld_st(x),
    {
        self.st = self.v[x as usize];
    }

    /// Fx1E - ADD I, Vx: `I = I + Vx`.
    pub fn add_i(&mut self, x: u8)
        requires
            x < 16,
            old(self).i + old(self).v@[x as int] <= u16::MAX,
        ensures
            final(self)@ == old(self)@.add_i(x),
    {
        self.i = self.i + self.v[x as usize] as u16;
    }

    /// Fx29 - LD F, Vx: `I` = the address of the font glyph for `Vx` (five
    /// bytes per glyph).
    pub fn ld_f(&mut self, x: u8)
        requires
            x < 16,
            old(self).v@[x as int] * 5 <= u8::MAX,
        ensures
            final(self)@ == old(self)@.ld_f(x),
    {
        self.i = (self.v[x as usize] * 5) as u16;
    }

    /// Fx33 - LD B, Vx: the hundreds, tens and ones digits of `Vx` at `I`,
    /// `I + 1` and `I + 2`.
    pub fn ld_b(&mut self, x: u8)
        requires
            x < 16,
            old(self).i + 2 < MEMORY_SIZE,
        ensures
            final(self)@ == old(self)@.ld_b(x),
    {
        let v: u8 = self.v[x as usize];
        let hundreds: u8 = v / 100;
        let tens: u8 = v % 100 / 10;
        let ones: u8 = v % 10;

        let i: usize = self.i as usize;

        self.memory[i] = hundreds;
        self.memory[i + 1] = tens;
        self.memory[i + 2] = ones;
    }

    /// Fx55 - LD [I], Vx: store `V0` to `Vx` in memory from `I` on, then
    /// `I = I + x + 1`.
    pub fn ld_i_v(&mut self, x: u8)
        requires
            x < 16,
            old(self).i + x < MEMORY_SIZE,
        ensures
            final(self)@ == old(self)@.ld_i_v(x),
    {
        let mut idx: u8 = 0;
        while idx <= x
            invariant
                x < 16,
                idx <= x + 1,
                self.i == old(self).i,
                self.i + x < MEMORY_SIZE,
                self.memory@.len() == MEMORY_SIZE,
                self.v@ == old(self).v@,
                forall|a: int|
                    0 <= a < MEMORY_SIZE ==> #[trigger] self.memory@[a] == if self.i <= a < self.i
                        + idx {
                        self.v@[a - self.i]
                    } else {
                        old(self).memory@[a]
                    },
                self@ == (CpuState { memory: self@.memory, ..old(self)@ }),
            decreases x + 1 - idx,
        {
            let v: u8 = self.v[idx as usize];
            self.memory[(self.i + idx as u16) as usize] = v;
            idx = idx + 1;
        }
        self.i = self.i + x as u16 + 1;
        assert(self@.memory =~= old(self)@.ld_i_v(x).memory);
    }

    /// Fx65 - LD Vx, [I]: load `V0` to `Vx` from memory from `I` on, then
    /// `I = I + x + 1`.
    pub fn ld_v_i(&mut self, x: u8)
        requires
            x < 16,
            old(self).i + x < MEMORY_SIZE,
        ensures
            final(self)@ == old(self)@.ld_v_i(x),
    {
        let mut idx: u8 = 0;
        while idx <= x
            invariant
                x < 16,
                idx <= x + 1,
                self.i == old(self).i,
                self.i + x < MEMORY_SIZE,
                self.v@.len() == 16,
                self.memory@ == old(self).memory@,
                forall|k: int|
                    0 <= k < 16 ==> #[trigger] self.v@[k] == if k < idx {
                        self.memory@[self.i + k]
                    } else {
                        old(self).v@[k]
                    },
                self@ == (CpuState { v: self@.v, ..old(self)@ }),
            decreases x + 1 - idx,
        {
            let m: u8 = self.memory[(self.i + idx as u16) as usize];
            self.v[idx as usize] = m;
            idx = idx + 1;
        }
        self.i = self.i + x as u16 + 1;
        assert(self@.v =~= old(self)@.ld_v_i(x).v);
    }
}

} // verus!
