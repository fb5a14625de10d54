//! What each instruction word does, stated directly over the registers,
//! memory and keys it reads and writes.
use vstd::prelude::*;

use vstd::arithmetic::div_mod::lemma_fundamental_div_mod_converse;

use crate::draw::{lemma_pixel_index, lemma_pixels_distinct, lemma_row_col};
use crate::laws::law_draw_xors_sprite;
use crate::model::{
    first_pressed_from, low_byte, nibble0, nibble1, nibble2, nibble3, CpuState, DISPLAY_SIZE,
    MEMORY_SIZE, TICK_DIVISOR,
};

verus! {

/// The registers other than `Vx` and `VF` keep their values.
pub open spec fn others_kept(s: CpuState, t: CpuState, x: int) -> bool {
    forall|k: int| 0 <= k < 15 && k != x ==> #[trigger] t.v[k] == s.v[k]
}

/// 8xyN with `x` other than `VF`: each sub-operation `N` computes its result
/// into `Vx` and its flag into `VF`, and changes nothing else.
pub proof fn law_register_arithmetic(s: CpuState, op: u16, rn: u8)
    requires
        s.sizes_ok(),
        op / 4096 == 8,
        (op / 256) % 16 < 15,
    ensures
        ({
            let x = (op / 256) % 16;
            let y = (op / 16) % 16;
            let n = op % 16;
            let t = s.execute(op, rn);
            let vx = s.v[x as int];
            let vy = s.v[y as int];
            let src = if s.super_chip { vx } else { vy };
            &&& t == (CpuState { v: t.v, ..s })
            &&& t.v.len() == 16
            &&& others_kept(s, t, x as int)
            &&& n == 0 ==> t.v[x as int] == vy && t.v[15] == s.v[15]
            &&& n == 1 ==> t.v[x as int] == vx | vy && t.v[15] == 0
            &&& n == 2 ==> t.v[x as int] == vx & vy && t.v[15] == 0
            &&& n == 3 ==> t.v[x as int] == vx ^ vy && t.v[15] == 0
            &&& n == 4 ==> t.v[x as int] + 256 * t.v[15] == vx + vy && t.v[15] <= 1
            &&& n == 5 ==> t.v[x as int] == (vx - vy + 256) % 256 && t.v[15] == (if vx >= vy {
                1int
            } else {
                0int
            })
            &&& n == 6 ==> t.v[x as int] * 2 + t.v[15] == src && t.v[15] <= 1
            &&& n == 7 ==> t.v[x as int] == (vy - vx + 256) % 256 && t.v[15] == (if vy >= vx {
                1int
            } else {
                0int
            })
            &&& n == 0xE ==> t.v[15] * 256 + t.v[x as int] == src * 2 && t.v[15] <= 1
            &&& (8 <= n < 0xE || n == 0xF) ==> t == s
        }),
{
    let t = s.execute(op, rn);
    assert(t.v.len() == 16);
    assert(t == (CpuState { v: t.v, ..s }));
}

/// XOR sets a bit of `Vx` exactly when the two input bits differ, and doing
/// 8xy3 twice with the same `Vy` gives `Vx` back.
pub proof fn law_xor_bits(s: CpuState, x: u8, y: u8)
    requires
        s.sizes_ok(),
        x < 15,
        y < 15,
        y != x,
    ensures
        forall|b: u8|
            b < 8 ==> ((#[trigger] (s.xor(x, y).v[x as int] >> b) & 1) == 1) == (((s.v[x as int]
                >> b) & 1) != ((s.v[y as int] >> b) & 1)),
        s.xor(x, y).xor(x, y).v[x as int] == s.v[x as int],
        s.xor(x, y).v[15] == 0,
{
    let vx = s.v[x as int];
    let vy = s.v[y as int];
    assert(forall|b: u8| b < 8 ==> (#[trigger] ((vx ^ vy) >> b) & 1 == 1) == (((vx >> b) & 1) != ((vy
        >> b) & 1))) by (bit_vector);
    assert((vx ^ vy) ^ vy == vx) by (bit_vector);
}

/// The fields of the instruction word `a`, `x`, then the byte `lo`.
proof fn lemma_word(op: u16, a: int, x: int, lo: int)
    requires
        0 <= a < 16,
        0 <= x < 16,
        0 <= lo < 256,
        op == a * 4096 + x * 256 + lo,
    ensures
        nibble0(op) == a,
        nibble1(op) == x,
        nibble2(op) == lo / 16,
        nibble3(op) == lo % 16,
        low_byte(op) == lo,
{
    lemma_fundamental_div_mod_converse(op as int, 4096, a, x * 256 + lo);
    lemma_fundamental_div_mod_converse(op as int, 256, a * 16 + x, lo);
    lemma_fundamental_div_mod_converse(a * 16 + x, 16, a, x);
    lemma_fundamental_div_mod_converse(lo, 16, lo / 16, lo % 16);
    lemma_fundamental_div_mod_converse(op as int, 16, a * 256 + x * 16 + lo / 16, lo % 16);
    lemma_fundamental_div_mod_converse(a * 256 + x * 16 + lo / 16, 16, a * 16 + x, lo / 16);
}

/// The conditional skips: the program counter moves on by two exactly when
/// the condition holds, and nothing else changes. 9xy0 skips exactly when
/// 5xy0 does not, and ExA1 exactly when Ex9E does not.
pub proof fn law_skips(s: CpuState, x: u8, y: u8, kk: u8, rn: u8)
    requires
        s.sizes_ok(),
        x < 16,
        y < 16,
        s.pc + 2 <= u16::MAX,
    ensures
        ({
            let vx = s.v[x as int];
            let vy = s.v[y as int];
            let se = s.execute((0x3000 + x * 256 + kk) as u16, rn);
            let sne_byte = s.execute((0x4000 + x * 256 + kk) as u16, rn);
            let se_reg = s.execute((0x5000 + x * 256 + y * 16) as u16, rn);
            let sne_reg = s.execute((0x9000 + x * 256 + y * 16) as u16, rn);
            &&& se == (CpuState { pc: se.pc, ..s })
            &&& se.pc == if vx == kk { s.pc + 2 } else { s.pc as int }
            &&& sne_byte == (CpuState { pc: sne_byte.pc, ..s })
            &&& sne_byte.pc == if vx != kk { s.pc + 2 } else { s.pc as int }
            &&& se.pc + sne_byte.pc == 2 * s.pc + 2
            &&& se_reg == (CpuState { pc: se_reg.pc, ..s })
            &&& se_reg.pc == if vx == vy { s.pc + 2 } else { s.pc as int }
            &&& sne_reg == (CpuState { pc: sne_reg.pc, ..s })
            &&& sne_reg.pc == if vx != vy { s.pc + 2 } else { s.pc as int }
            &&& se_reg.pc + sne_reg.pc == 2 * s.pc + 2
        }),
        s.v[x as int] < 16 ==> ({
            let down = s.keys[s.v[x as int] as int];
            let skp = s.execute((0xE09E + x * 256) as u16, rn);
            let sknp = s.execute((0xE0A1 + x * 256) as u16, rn);
            &&& skp == (CpuState { pc: skp.pc, ..s })
            &&& skp.pc == if down { s.pc + 2 } else { s.pc as int }
            &&& sknp == (CpuState { pc: sknp.pc, ..s })
            &&& sknp.pc == if !down { s.pc + 2 } else { s.pc as int }
            &&& skp.pc + sknp.pc == 2 * s.pc + 2
        }),
{
    lemma_word((0x3000 + x * 256 + kk) as u16, 3, x as int, kk as int);
    lemma_word((0x4000 + x * 256 + kk) as u16, 4, x as int, kk as int);
    lemma_word((0x5000 + x * 256 + y * 16) as u16, 5, x as int, y * 16);
    lemma_word((0x9000 + x * 256 + y * 16) as u16, 9, x as int, y * 16);
    lemma_word((0xE09E + x * 256) as u16, 0xE, x as int, 0x9E);
    lemma_word((0xE0A1 + x * 256) as u16, 0xE, x as int, 0xA1);
}

/// The jumps and subroutine calls. Bnnn lands exactly `V0` past `nnn` (an
/// integer sum), so a jump table entry `k` words past `nnn` is reached with
/// `V0 = 2k`.
pub proof fn law_jumps(s: CpuState, nnn: u16, rn: u8)
    requires
        s.sizes_ok(),
        nnn < 4096,
    ensures
        ({
            let jp = s.execute((0x1000 + nnn) as u16, rn);
            let jpv0 = s.execute((0xB000 + nnn) as u16, rn);
            &&& jp == (CpuState { pc: nnn, ..s })
            &&& jpv0 == (CpuState { pc: jpv0.pc, ..s })
            &&& jpv0.pc - nnn == s.v[0]
        }),
        s.sp < 15 ==> ({
            let call = s.execute((0x2000 + nnn) as u16, rn);
            &&& call.pc == nnn
            &&& call.sp == s.sp + 1
            &&& call.stack[s.sp + 1] == s.pc
            &&& forall|k: int| 0 <= k < 16 && k != s.sp + 1 ==> #[trigger] call.stack[k] == s.stack[k]
            &&& call == (CpuState { pc: call.pc, sp: call.sp, stack: call.stack, ..s })
        }),
        0 < s.sp < 16 ==> ({
            let ret = s.execute(0x00EE, rn);
            &&& ret == (CpuState { pc: s.stack[s.sp as int], sp: (s.sp - 1) as u8, ..s })
        }),
{
}

/// The loads into registers, `I` and the timers, and the random byte.
pub proof fn law_loads(s: CpuState, x: u8, kk: u8, nnn: u16, rn: u8)
    requires
        s.sizes_ok(),
        x < 16,
        nnn < 4096,
    ensures
        ({
            let vx = s.v[x as int];
            let ld = s.execute((0x6000 + x * 256 + kk) as u16, rn);
            let add = s.execute((0x7000 + x * 256 + kk) as u16, rn);
            let ldi = s.execute((0xA000 + nnn) as u16, rn);
            let rnd = s.execute((0xC000 + x * 256 + kk) as u16, rn);
            let ld_v_dt = s.execute((0xF007 + x * 256) as u16, rn);
            let ld_dt_v = s.execute((0xF015 + x * 256) as u16, rn);
            let ld_st = s.execute((0xF018 + x * 256) as u16, rn);
            &&& ld.v[x as int] == kk && others_kept(s, ld, x as int)
            &&& ld == (CpuState { v: ld.v, ..s })
            &&& add.v[x as int] == (vx + kk) % 256 && others_kept(s, add, x as int)
            &&& add == (CpuState { v: add.v, ..s })
            &&& x < 15 ==> add.v[15] == s.v[15]
            &&& ldi == (CpuState { i: nnn, ..s })
            &&& rnd.v[x as int] == rn & kk && others_kept(s, rnd, x as int)
            &&& rnd == (CpuState { v: rnd.v, ..s })
            &&& ld_v_dt.v[x as int] == s.dt && others_kept(s, ld_v_dt, x as int)
            &&& ld_v_dt == (CpuState { v: ld_v_dt.v, ..s })
            &&& ld_dt_v == (CpuState { dt: vx, ..s })
            &&& ld_st == (CpuState { st: vx, ..s })
        }),
        s.i + s.v[x as int] <= u16::MAX ==> s.execute((0xF01E + x * 256) as u16, rn) == (
        CpuState { i: (s.i + s.v[x as int]) as u16, ..s }),
        s.v[x as int] < 16 ==> s.execute((0xF029 + x * 256) as u16, rn) == (CpuState {
            i: (5 * s.v[x as int]) as u16,
            ..s
        }),
{
    let vx = s.v[x as int];
    assert(((0x6000 + x * 256 + kk) as u16) % 256 == kk);
    assert(((0xC000 + x * 256 + kk) as u16) % 256 == kk);
}

/// The stores and loads between registers and memory.
pub proof fn law_memory_transfers(s: CpuState, x: u8, rn: u8)
    requires
        s.sizes_ok(),
        x < 16,
        s.i + x < MEMORY_SIZE,
    ensures
        ({
            let store = s.execute((0xF055 + x * 256) as u16, rn);
            let load = s.execute((0xF065 + x * 256) as u16, rn);
            &&& forall|k: int| 0 <= k <= x ==> #[trigger] store.memory[s.i + k] == s.v[k]
            &&& forall|a: int|
                0 <= a < MEMORY_SIZE && !(s.i <= a <= s.i + x) ==> #[trigger] store.memory[a]
                    == s.memory[a]
            &&& store == (CpuState { memory: store.memory, i: (s.i + x + 1) as u16, ..s })
            &&& forall|k: int| 0 <= k <= x ==> #[trigger] load.v[k] == s.memory[s.i + k]
            &&& forall|k: int| x < k < 16 ==> #[trigger] load.v[k] == s.v[k]
            &&& load == (CpuState { v: load.v, i: (s.i + x + 1) as u16, ..s })
        }),
        s.i + 2 < MEMORY_SIZE ==> ({
            let bcd = s.execute((0xF033 + x * 256) as u16, rn);
            let m = bcd.memory;
            &&& m[s.i as int] < 10 && m[s.i + 1] < 10 && m[s.i + 2] < 10
            &&& m[s.i as int] * 100 + m[s.i + 1] * 10 + m[s.i + 2] == s.v[x as int]
            &&& bcd == (CpuState { memory: bcd.memory, ..s })
        }),
{
}

/// Fx0A stores a key that is down, the lowest-numbered one, beeps briefly
/// and goes on; with no key down it repeats.
pub proof fn law_wait_for_key(s: CpuState, x: u8, rn: u8)
    requires
        s.sizes_ok(),
        x < 16,
    ensures
        ({
            let t = s.execute((0xF00A + x * 256) as u16, rn);
            &&& (exists|k: int| 0 <= k < 16 && #[trigger] s.keys[k]) ==> {
                &&& t.v[x as int] < 16
                &&& s.keys[t.v[x as int] as int]
                &&& forall|j: int| 0 <= j < t.v[x as int] ==> !#[trigger] s.keys[j]
                &&& others_kept(s, t, x as int)
                &&& x < 15 ==> t.v[15] == s.v[15]
                &&& t == (CpuState { v: t.v, st: 4, ..s })
            }
            &&& (forall|k: int| 0 <= k < 16 ==> !#[trigger] s.keys[k]) ==> t == (CpuState {
                pc: (s.pc - 2) as u16,
                ..s
            })
        }),
{
    lemma_first_pressed(s.keys, 0);
}

/// The first pressed key at or after `k` is down, and no key between `k` and
/// it is; it is 16 exactly when no key from `k` on is down.
proof fn lemma_first_pressed(keys: Seq<bool>, k: int)
    requires
        keys.len() == 16,
        0 <= k <= 16,
    ensures
        k <= first_pressed_from(keys, k) <= 16,
        first_pressed_from(keys, k) < 16 ==> keys[first_pressed_from(keys, k)],
        forall|j: int| k <= j < first_pressed_from(keys, k) ==> !#[trigger] keys[j],
    decreases 16 - k,
{
    if k < 16 && !keys[k] {
        lemma_first_pressed(keys, k + 1);
    }
}

/// 00E0 turns every pixel dark and changes nothing else.
pub proof fn law_clear_screen(s: CpuState, rn: u8)
    requires
        s.sizes_ok(),
    ensures
        forall|k: int| 0 <= k < s.display.len() ==> !#[trigger] s.execute(0x00E0, rn).display[k],
        s.execute(0x00E0, rn).display.len() == s.display.len(),
        s.execute(0x00E0, rn) == (CpuState { display: s.execute(0x00E0, rn).display, ..s }),
{
}

/// Dxyn on a display at least 8 wide, `n` high and no larger than the
/// buffer, early in a timer period, with `x` and `y` other than `VF`: the
/// pixel at row `(Vy + r) mod h` and column `(Vx + c) mod w` flips exactly
/// when bit `7 - c` of the sprite byte at `I + r` is set, for every row
/// `r < n` and column `c < 8`.
pub proof fn law_draw_pixels(s: CpuState, x: u8, y: u8, n: u8, r: int, c: int, rn: u8)
    requires
        s.sizes_ok(),
        x < 15,
        y < 15,
        n < 16,
        s.display_width >= 8,
        s.display_height >= n,
        s.display_height * s.display_width <= DISPLAY_SIZE,
        s.tick_divider_counter < TICK_DIVISOR / 2,
        0 <= r < n,
        0 <= c < 8,
    ensures
        ({
            let w = s.display_width as int;
            let h = s.display_height as int;
            let idx = ((s.v[y as int] + r) % h) * w + (s.v[x as int] + c) % w;
            let t = s.execute((0xD000 + x * 256 + y * 16 + n) as u16, rn);
            &&& 0 <= idx < DISPLAY_SIZE
            &&& t.display[idx] == (s.display[idx] != ((s.memory[s.i + r] >> ((7 - c) as u8)) & 1
                == 1))
        }),
{
    let op = (0xD000 + x * 256 + y * 16 + n) as u16;
    lemma_word(op, 0xD, x as int, y * 16 + n);
    assert(nibble2(op) == y && nibble3(op) == n);
    let w = s.display_width as int;
    let h = s.display_height as int;
    let sp = s.sprite(x, y);
    let k = 8 * r + c;
    lemma_row_col(k, r, c);
    let idx = ((s.v[y as int] + r) % h) * w + (s.v[x as int] + c) % w;
    assert(sp.pixel(k) == idx);
    lemma_pixel_index((s.v[y as int] + r) % h, (s.v[x as int] + c) % w, w, h);
    law_draw_xors_sprite(s, x, y, n);
    assert(s.execute(op, rn) == s.drw(x, y, n));
    if sp.covers(n as int, idx) {
        let j = choose|j: int| 0 <= j < 8 * n && sp.bit(j) && #[trigger] sp.pixel(j) == idx;
        if j < k {
            lemma_pixels_distinct(sp, n as int, j, k);
        } else if k < j {
            lemma_pixels_distinct(sp, n as int, k, j);
        }
    }
    if sp.bit(k) {
        assert(sp.covers(n as int, idx));
    }
    let byte = s.memory[s.i + r];
    let cc = c as u8;
    let shift: u8 = (7 - cc) as u8;
    assert(shift == (7 - c) as u8);
    assert(((byte & (0x80u8 >> cc)) != 0) == ((byte >> shift) & 1 == 1)) by (bit_vector)
        requires
            cc < 8,
            shift == 7 - cc,
    ;
}

} // verus!
