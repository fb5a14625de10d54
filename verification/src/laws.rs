//! Properties of the instruction set that hold of every state.
use vstd::prelude::*;

use crate::cpu::Cpu;
use crate::draw::{lemma_flipped_distinct, lemma_pixels_distinct};
use crate::emulator::{run, run_without_rnd, stop_reason, stops, RunStop};
use crate::model::{
    address, low_byte, nibble0, nibble1, nibble2, nibble3, word_at, CpuState, DISPLAY_SIZE,
    MEMORY_SIZE, TICK_DIVISOR,
};

verus! {

/// Every machine has the sizes of the model: 4096 bytes of memory, 16
/// registers, 16 keys, 2048 pixels and 16 stack slots.
pub proof fn law_machine_sizes(cpu: &Cpu)
    ensures
        cpu@.sizes_ok(),
{
}

/// An instruction word is its four nibbles, most significant first.
pub proof fn law_nibbles_recombine(op: u16)
    ensures
        nibble0(op) < 16 && nibble1(op) < 16 && nibble2(op) < 16 && nibble3(op) < 16,
        op == nibble0(op) * 4096 + nibble1(op) * 256 + nibble2(op) * 16 + nibble3(op),
        low_byte(op) == nibble2(op) * 16 + nibble3(op),
        address(op) == nibble1(op) * 256 + nibble2(op) * 16 + nibble3(op),
{
    assert(op == (op / 4096) * 4096 + ((op / 256) % 16) * 256 + ((op / 16) % 16) * 16 + op % 16
        && op % 256 == ((op / 16) % 16) * 16 + op % 16 && op % 4096 == ((op / 256) % 16) * 256 + (
    (op / 16) % 16) * 16 + op % 16 && op / 4096 < 16) by (bit_vector);
}

/// Returning from a subroutine undoes the call: the program counter and the
/// stack pointer are back, and only the stack slot used by the call changed.
pub proof fn law_call_then_ret(s: CpuState, nnn: u16)
    requires
        s.sizes_ok(),
        s.sp < 15,
    ensures
        s.call(nnn).ret() == (CpuState { stack: s.stack.update(s.call_sp() as int, s.pc), ..s }),
{
    assert(s.call(nnn).ret().stack =~= s.stack.update(s.call_sp() as int, s.pc));
}

/// Fx33 stores the decimal digits of `Vx`: each below ten, and together
/// worth `Vx`.
pub proof fn law_bcd(s: CpuState, x: u8)
    requires
        s.sizes_ok(),
        x < 16,
        s.i + 2 < MEMORY_SIZE,
    ensures
        ({
            let m = s.ld_b(x).memory;
            &&& m[s.i as int] < 10 && m[s.i + 1] < 10 && m[s.i + 2] < 10
            &&& m[s.i as int] * 100 + m[s.i + 1] * 10 + m[s.i + 2] == s.v[x as int]
            &&& forall|a: int|
                0 <= a < MEMORY_SIZE && !(s.i <= a <= s.i + 2) ==> #[trigger] m[a] == s.memory[a]
        }),
{
}

/// Storing `V0..=Vx` with Fx55 and loading them back from the same address
/// with Fx65 gives the registers back.
pub proof fn law_store_then_load_registers(s: CpuState, x: u8)
    requires
        s.sizes_ok(),
        x < 16,
        s.i + x < MEMORY_SIZE,
    ensures
        s.ld_i_v(x).set_i(s.i as int).ld_v_i(x).v == s.v,
        s.ld_i_v(x).set_i(s.i as int).ld_v_i(x).i == s.ld_i_v(x).i,
{
    let t = s.ld_i_v(x).set_i(s.i as int).ld_v_i(x);
    assert(t.v =~= s.v);
}

/// Drawing the same sprite twice at the same place leaves the display as it
/// was: sprites are XORed onto the display.
pub proof fn law_draw_twice_restores_display(s: CpuState, x: u8, y: u8, n: u8)
    requires
        s.sizes_ok(),
        x < 15,
        y < 15,
        s.tick_divider_counter < TICK_DIVISOR / 2,
    ensures
        s.drw(x, y, n).drw(x, y, n).display == s.display,
{
    let t = s.drw(x, y, n);
    assert(t.draw_base().v[x as int] == s.draw_base().v[x as int]);
    assert(t.draw_base().v[y as int] == s.draw_base().v[y as int]);
    assert(t.sprite(x, y) =~= s.sprite(x, y));
    assert(t.drw(x, y, n).display =~= s.display);
}

/// On a display at least 8 pixels wide and `n` rows high the sprite's pixels
/// land on different display pixels. Drawing then flips exactly the display
/// pixels that a set sprite pixel lands on, and `VF` is 1 exactly when some
/// pixel lit before is dark after.
pub proof fn law_draw_xors_sprite(s: CpuState, x: u8, y: u8, n: u8)
    requires
        s.sizes_ok(),
        x < 16,
        y < 16,
        s.display_width >= 8,
        s.display_height >= n,
        s.tick_divider_counter < TICK_DIVISOR / 2,
    ensures
        forall|idx: int|
            0 <= idx < DISPLAY_SIZE ==> #[trigger] s.drw(x, y, n).display[idx] == (s.display[idx]
                != s.sprite(x, y).covers(n as int, idx)),
        (s.drw(x, y, n).v[15] == 1) == (exists|idx: int|
            0 <= idx < DISPLAY_SIZE && #[trigger] s.display[idx] && !s.drw(
                x,
                y,
                n,
            ).display[idx]),
        s.drw(x, y, n).v[15] == 0 || s.drw(x, y, n).v[15] == 1,
{
    let sp = s.sprite(x, y);
    let t = s.drw(x, y, n);
    let last = 8 * (n as int);
    assert forall|idx: int| 0 <= idx < DISPLAY_SIZE implies #[trigger] sp.flipped(last, idx)
        == sp.covers(n as int, idx) by {
        lemma_flipped_distinct(sp, n as int, last, idx);
    }
    if s.collides(x, y, n) {
        let k = choose|k: int| 0 <= k < last && #[trigger] s.erases_at(x, y, k);
        lemma_flipped_distinct(sp, n as int, k, sp.pixel(k));
        if sp.flipped(k, sp.pixel(k)) {
            let j = choose|j: int| 0 <= j < k && sp.bit(j) && #[trigger] sp.pixel(j) == sp.pixel(k);
            lemma_pixels_distinct(sp, n as int, j, k);
        }
        let p = sp.pixel(k);
        assert(sp.covers(n as int, p));
        assert(s.display[p] && !t.display[p]);
    }
    if exists|idx: int| 0 <= idx < DISPLAY_SIZE && #[trigger] s.display[idx] && !t.display[idx] {
        let p = choose|p: int| 0 <= p < DISPLAY_SIZE && #[trigger] s.display[p] && !t.display[p];
        assert(sp.covers(n as int, p));
        let k = choose|k: int| 0 <= k < last && sp.bit(k) && #[trigger] sp.pixel(k) == p;
        lemma_flipped_distinct(sp, n as int, k, p);
        if sp.flipped(k, p) {
            let j = choose|j: int| 0 <= j < k && sp.bit(j) && #[trigger] sp.pixel(j) == p;
            lemma_pixels_distinct(sp, n as int, j, k);
        }
        assert(s.erases_at(x, y, k));
    }
}

/// With `x` other than `VF`, 8xy4 keeps the whole sum: the carry in `VF`
/// counts 256.
pub proof fn law_add_keeps_sum(s: CpuState, x: u8, y: u8)
    requires
        s.sizes_ok(),
        x < 15,
        y < 16,
    ensures
        s.add(x, y).v[x as int] + 256 * s.add(x, y).v[15] == s.v[x as int] + s.v[y as int],
{
}

/// With `x` other than `VF`, 8xy5 gives the difference, borrowing 256 when
/// `VF` is 0.
pub proof fn law_sub_keeps_difference(s: CpuState, x: u8, y: u8)
    requires
        s.sizes_ok(),
        x < 15,
        y < 16,
    ensures
        s.sub(x, y).v[x as int] - 256 * (1 - s.sub(x, y).v[15]) == s.v[x as int] - s.v[y as int],
{
}

/// With `x` other than `VF`, the shifts lose no bit: the bit shifted out is
/// in `VF`.
pub proof fn law_shifts_keep_bits(s: CpuState, x: u8, y: u8)
    requires
        s.sizes_ok(),
        x < 15,
        y < 16,
    ensures
        s.shr(x, y).v[x as int] * 2 + s.shr(x, y).v[15] == s.shift_source(x, y),
        s.shl(x, y).v[15] * 256 + s.shl(x, y).v[x as int] == s.shift_source(x, y) * 2,
{
}

/// Only 00E0 and Dxyn change the display.
pub proof fn law_display_changed_only_by_cls_and_drw(s: CpuState, op: u16, rn: u8)
    requires
        op != 0x00E0,
        nibble0(op) != 0xD,
    ensures
        s.execute(op, rn).display == s.display,
{
    law_nibbles_recombine(op);
}

/// Only Fx33 and Fx55 change memory.
pub proof fn law_memory_changed_only_by_stores(s: CpuState, op: u16, rn: u8)
    requires
        !(nibble0(op) == 0xF && nibble2(op) == 3 && nibble3(op) == 3),
        !(nibble0(op) == 0xF && nibble2(op) == 5 && nibble3(op) == 5),
    ensures
        s.execute(op, rn).memory == s.memory,
{
}

/// An instruction the machine does not know changes nothing.
pub proof fn law_unknown_changes_nothing(s: CpuState, op: u16, rn: u8)
    requires
        !CpuState::known(op),
    ensures
        s.execute(op, rn) == s,
{
}

/// Only Cxkk depends on the random byte: every other cycle is determined by
/// the state.
pub proof fn law_cycle_deterministic_but_rnd(s: CpuState, rn1: u8, rn2: u8)
    requires
        s.pc >= MEMORY_SIZE || nibble0(s.opcode()) != 0xC,
    ensures
        s.cycle(rn1) == s.cycle(rn2),
{
}

/// The timers count down to zero and stay there.
pub proof fn law_tick_counts_down(s: CpuState)
    ensures
        s.tick().dt == if s.dt == 0 { 0 } else { s.dt - 1 },
        s.tick().st == if s.st == 0 { 0 } else { s.st - 1 },
        s.dt == 0 ==> s.tick().dt == 0,
        s.tick() == (CpuState { dt: s.tick().dt, st: s.tick().st, ..s }),
{
}

/// A freshly made machine holds the font at the bottom of memory, and
/// loading a program there leaves the font in place.
pub proof fn law_load_keeps_font(game: Seq<u8>)
    ensures
        forall|a: int|
            0 <= a < crate::model::FONTSET_LEN ==> #[trigger] CpuState::initial().load(game).memory[a]
                == crate::model::fontset_spec()[a],
        forall|k: int|
            0 <= k < game.len() && crate::model::PROGRAM_START + k < MEMORY_SIZE
                ==> #[trigger] CpuState::initial().load(game).memory[crate::model::PROGRAM_START + k]
                == game[k],
{
}

/// A cycle fetches the big-endian word at the program counter, moves the
/// program counter past it, counts the cycle (ticking the timers and
/// restarting the count every ninth one), then executes the word.
pub proof fn law_cycle_fetches_ticks_executes(s: CpuState, rn: u8)
    requires
        s.pc < MEMORY_SIZE - 1,
    ensures
        s.opcode() == s.memory[s.pc as int] * 256 + s.memory[s.pc + 1],
        s.cycle(rn) == ({
            let count = s.tick_divider_counter + 1;
            let f = CpuState {
                pc: (s.pc + 2) as u16,
                tick_divider_counter: if count >= TICK_DIVISOR { 0 } else { count as u32 },
                ..s
            };
            if count >= TICK_DIVISOR {
                f.tick()
            } else {
                f
            }
        }).execute(word_at(s.memory, s.pc as int), rn),
{
}

/// Running `a` cycles and then `b` more is running `a + b` cycles: when the
/// first run completes, the second goes on from where it ended and the
/// unknown instructions met are joined; when the first run stops early, the
/// longer run stops at the same place, and a second run stops there again.
pub proof fn law_runs_compose(s: CpuState, a: nat, b: nat, r1: Seq<u8>, r2: Seq<u8>)
    requires
        r1.len() == a,
        r2.len() == b,
    ensures
        ({
            let first = run(s, a, r1);
            let second = run(first.0, b, r2);
            &&& first.2 == RunStop::Completed ==> run(s, a + b, r1 + r2) == (
                second.0,
                first.1 + second.1,
                second.2,
            )
            &&& first.2 != RunStop::Completed ==> run(s, a + b, r1 + r2) == first
            &&& first.2 != RunStop::Completed && b > 0 ==> second == (
                first.0,
                Seq::<u16>::empty(),
                first.2,
            )
        }),
    decreases a,
{
    let first = run(s, a, r1);
    if a == 0 {
        assert(r1 + r2 =~= r2);
        assert(Seq::<u16>::empty() + run(s, b, r2).1 =~= run(s, b, r2).1);
    } else if stops(s) {
        assert(first == (s, Seq::<u16>::empty(), stop_reason(s)));
    } else {
        let t = s.cycle(r1[0]);
        assert((r1 + r2)[0] == r1[0]);
        assert((r1 + r2).drop_first() =~= r1.drop_first() + r2);
        law_runs_compose(t, (a - 1) as nat, b, r1.drop_first(), r2);
        let inner = run(t, (a - 1) as nat, r1.drop_first());
        let second = run(inner.0, b, r2);
        if inner.2 == RunStop::Completed {
            let u = if s.cycle_unknown() { seq![s.opcode()] } else { Seq::<u16>::empty() };
            assert(u + (inner.1 + second.1) =~= (u + inner.1) + second.1);
        }
    }
}

/// A run that executes no Cxkk instruction does not depend on the random
/// bytes: any other bytes give the same run.
pub proof fn law_run_without_rnd_ignores_bytes(s: CpuState, k: nat, r1: Seq<u8>, r2: Seq<u8>)
    requires
        r1.len() == k,
        r2.len() == k,
        run_without_rnd(s, k, r1),
    ensures
        run_without_rnd(s, k, r2),
        run(s, k, r1) == run(s, k, r2),
    decreases k,
{
    if k > 0 && !stops(s) {
        law_cycle_deterministic_but_rnd(s, r1[0], r2[0]);
        law_run_without_rnd_ignores_bytes(
            s.cycle(r1[0]),
            (k - 1) as nat,
            r1.drop_first(),
            r2.drop_first(),
        );
    }
}

/// Running `a` cycles and then `b` cycles (two calls of
/// `EmulatorState::run_steps`) ends where one run of `a + b` cycles ends, as
/// long as the long run executes no Cxkk instruction: same machine, same
/// unknown instructions met, same way of ending. Running no cycles changes
/// nothing.
pub proof fn law_run_steps_compose(
    s: CpuState,
    a: nat,
    b: nat,
    r1: Seq<u8>,
    r2: Seq<u8>,
    r3: Seq<u8>,
)
    requires
        r1.len() == a,
        r2.len() == b,
        r3.len() == a + b,
        run_without_rnd(s, a + b, r3),
    ensures
        run(s, 0, Seq::empty()) == (s, Seq::<u16>::empty(), RunStop::Completed),
        ({
            let first = run(s, a, r1);
            let second = run(first.0, b, r2);
            let whole = run(s, a + b, r3);
            &&& first.2 == RunStop::Completed ==> whole == (
                second.0,
                first.1 + second.1,
                second.2,
            )
            &&& first.2 != RunStop::Completed ==> whole == first
            &&& first.2 != RunStop::Completed && b > 0 ==> second == (
                first.0,
                Seq::<u16>::empty(),
                first.2,
            )
        }),
{
    law_run_without_rnd_ignores_bytes(s, a + b, r3, r1 + r2);
    law_runs_compose(s, a, b, r1, r2);
}

} // verus!
