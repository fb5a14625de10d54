//! The machine itself: its registers and memory, loading a program, the
//! timers, and the fetch of instruction words.
use vstd::prelude::*;

use crate::model::{
    fontset_spec, initial_memory, lemma_nibbles, nibble0, nibble1, nibble2, nibble3, word_at,
    CpuState, FONTSET_LEN, MEMORY_SIZE, PROGRAM_START,
};
use crate::peripherals::{Display, Keypad};

verus! {

/// A CHIP-8 machine.
#[derive(Clone, Copy)]
pub struct Cpu {
    /// The index register `I`.
    pub i: u16,
    /// The program counter.
    pub pc: u16,
    pub memory: [u8; 4096],
    /// The registers `V0` to `VF`.
    pub v: [u8; 16],
    pub keypad: Keypad,
    pub display: Display,
    pub stack: [u16; 16],
    /// The stack pointer.
    pub sp: u8,
    /// The delay timer.
    pub dt: u8,
    /// The sound timer.
    pub st: u8,
    /// Cycles since the last 60 Hz timer tick.
    pub tick_divider_counter: u32,
    /// Zero in a fresh machine; no instruction reads or writes it.
    pub key_detection_index: usize,
    /// Shift instructions use `Vx` rather than `Vy`.
    pub super_chip: bool,
    pub display_height: u8,
    pub display_width: u8,
}

impl View for Cpu {
    type V = CpuState;

    open spec fn view(&self) -> CpuState {
        CpuState {
            i: self.i,
            pc: self.pc,
            memory: self.memory@,
            v: self.v@,
            keys: self.keypad.keys@,
            display: self.display.memory@,
            stack: self.stack@,
            sp: self.sp,
            dt: self.dt,
            st: self.st,
            tick_divider_counter: self.tick_divider_counter,
            key_detection_index: self.key_detection_index,
            super_chip: self.super_chip,
            display_height: self.display_height,
            display_width: self.display_width,
        }
    }
}

/// The big-endian instruction word at `counter`.
pub fn read_word(memory: &[u8; 4096], counter: u16) -> (word: u16)
    requires
        counter + 1 < MEMORY_SIZE,
    ensures
        word == word_at(memory@, counter as int),
{
    let hi: u8 = memory[counter as usize];
    let lo: u8 = memory[(counter + 1) as usize];
    let word: u16 = (hi as u16) << 8 | (lo as u16);
    assert(word == hi * 256 + lo) by (bit_vector)
        requires
            word == (hi as u16) << 8 | (lo as u16),
    ;
    word
}

/// The built-in font.
fn fontset() -> (font: [u8; 80])
    ensures
        font@ == fontset_spec(),
{
    let font: [u8; 80] = [
        0xF0, 0x90, 0x90, 0x90, 0xF0, // 0
        0x20, 0x60, 0x20, 0x20, 0x70, // 1
        0xF0, 0x10, 0xF0, 0x80, 0xF0, // 2
        0xF0, 0x10, 0xF0, 0x10, 0xF0, // 3
        0x90, 0x90, 0xF0, 0x10, 0x10, // 4
        0xF0, 0x80, 0xF0, 0x10, 0xF0, // 5
        0xF0, 0x80, 0xF0, 0x90, 0xF0, // 6
        0xF0, 0x10, 0x20, 0x40, 0x40, // 7
        0xF0, 0x90, 0xF0, 0x90, 0xF0, // 8
        0xF0, 0x90, 0xF0, 0x10, 0xF0, // 9
        0xF0, 0x90, 0xF0, 0x90, 0x90, // A
        0xE0, 0x90, 0xE0, 0x90, 0xE0, // B
        0xF0, 0x80, 0x80, 0x80, 0xF0, // C
        0xE0, 0x90, 0x90, 0x90, 0xE0, // D
        0xF0, 0x80, 0xF0, 0x80, 0xF0, // E
        0xF0, 0x80, 0xF0, 0x80, 0x80, // F
    ];
    assert(font@ =~= fontset_spec());
    font
}

impl Cpu {
    /// A freshly made machine (see `CpuState::initial`).
    pub fn new() -> (cpu: Cpu)
        ensures
            cpu@ == CpuState::initial(),
    {
        let mut cpu = Cpu {
            memory: [0;4096],
            v: [0;16],
            i: 0x200,
            pc: 0x200,
            stack: [0;16],
            sp: 0,
            dt: 0,
            st: 0,
            tick_divider_counter: 0,
            keypad: Keypad::new(),
            display: Display::new(),
            key_detection_index: 0,
            super_chip: false,
            display_height: 32,
            display_width: 64,
        };
        let font = fontset();
        let mut a: usize = 0;
        while a < FONTSET_LEN
            invariant
                a <= FONTSET_LEN,
                font@ == fontset_spec(),
                cpu.memory@.len() == MEMORY_SIZE,
                forall|k: int| 0 <= k < a ==> #[trigger] cpu.memory@[k] == fontset_spec()[k],
                forall|k: int| a <= k < MEMORY_SIZE ==> #[trigger] cpu.memory@[k] == 0,
                forall|k: int| 0 <= k < 16 ==> #[trigger] cpu.v@[k] == 0,
                forall|k: int| 0 <= k < 16 ==> #[trigger] cpu.stack@[k] == 0,
                forall|k: int| 0 <= k < 16 ==> !#[trigger] cpu.keypad.keys@[k],
                forall|k: int| 0 <= k < 2048 ==> !#[trigger] cpu.display.memory@[k],
                cpu.i == 0x200 && cpu.pc == 0x200 && cpu.sp == 0 && cpu.dt == 0 && cpu.st == 0,
                cpu.tick_divider_counter == 0 && cpu.key_detection_index == 0,
                !cpu.super_chip && cpu.display_height == 32 && cpu.display_width == 64,
            decreases FONTSET_LEN - a,
        {
            cpu.memory[a] = font[a];
            a = a + 1;
        }
        assert(cpu@.memory =~= initial_memory());
        assert(cpu@.v =~= CpuState::initial().v);
        assert(cpu@.stack =~= CpuState::initial().stack);
        assert(cpu@.keys =~= CpuState::initial().keys);
        assert(cpu@.display =~= CpuState::initial().display);
        cpu
    }

    /// Copies a program into memory from address 512 on; what does not fit
    /// is left out. Nothing else changes.
    pub fn load_game(&mut self, game: &[u8])
        ensures
            final(self)@ == old(self)@.load(game@),
    {
        let start: usize = PROGRAM_START;
        let max_len: usize = MEMORY_SIZE - start;
        let game_len: usize = if game.len() < max_len { game.len() } else { max_len };
        let mut k: usize = 0;
        while k < game_len
            invariant
                start == PROGRAM_START,
                game_len <= max_len,
                game_len <= game@.len(),
                max_len == MEMORY_SIZE - PROGRAM_START,
                game_len == game@.len() || game_len == max_len,
                k <= game_len,
                self.memory@.len() == MEMORY_SIZE,
                forall|a: int|
                    0 <= a < MEMORY_SIZE ==> #[trigger] self.memory@[a] == if PROGRAM_START <= a
                        < PROGRAM_START + k {
                        game@[a - PROGRAM_START]
                    } else {
                        old(self).memory@[a]
                    },
                self@ == (CpuState { memory: self@.memory, ..old(self)@ }),
            decreases game_len - k,
        {
            self.memory[start + k] = game[k];
            k = k + 1;
        }
        let ghost expected = Seq::new(
            MEMORY_SIZE as nat,
            |a: int|
                if PROGRAM_START <= a < PROGRAM_START + game@.len() {
                    game@[a - PROGRAM_START]
                } else {
                    old(self)@.memory[a]
                },
        );
        assert(self@.memory =~= expected);
    }

    /// One 60 Hz tick: each timer that is above zero counts down by one.
    pub fn tick(&mut self)
        ensures
            final(self)@ == old(self)@.tick(),
    {
        if self.dt > 0 {
            self.dt = self.dt - 1;
        }
        if self.st > 0 {
            self.st = self.st - 1;
        }
    }

    /// The instruction word at the program counter, if both its bytes lie in
    /// memory.
    pub fn current_opcode(&self) -> (op: Option<u16>)
        ensures
            op == if self.pc < MEMORY_SIZE - 1 {
                Some(self@.opcode())
            } else {
                None::<u16>
            },
    {
        if (self.pc as usize) >= MEMORY_SIZE - 1 {
            return None;
        }
        Some(read_word(&self.memory, self.pc))
    }

    /// The four nibbles of an instruction word, most significant first.
    pub fn split_u4(&mut self, opcode: u16) -> (nibbles: Vec<u8>)
        ensures
            nibbles@ == seq![nibble0(opcode), nibble1(opcode), nibble2(opcode), nibble3(opcode)],
            *final(self) == *old(self),
    {
        let u4_0: u8 = ((opcode & 0xf000) >> 12) as u8;
        let u4_1: u8 = ((opcode & 0x0f00) >> 8) as u8;
        let u4_2: u8 = ((opcode & 0x00f0) >> 4) as u8;
        let u4_3: u8 = (opcode & 0x000f) as u8;
        proof {
            lemma_nibbles(opcode);
        }
        let mut nibbles: Vec<u8> = Vec::new();
        nibbles.push(u4_0);
        nibbles.push(u4_1);
        nibbles.push(u4_2);
        nibbles.push(u4_3);
        assert(nibbles@ =~= seq![nibble0(opcode), nibble1(opcode), nibble2(opcode), nibble3(opcode)]);
        nibbles
    }
}

} // verus!
