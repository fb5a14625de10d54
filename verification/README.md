# chip8

A CHIP-8 virtual machine whose instruction set is verified with Verus.

- `src/model.rs` — the machine state as mathematical values (`CpuState`), the
  meaning of each instruction, the instruction cycle, and when an
  instruction cannot be carried out (`op_faults`, `cycle_faults`).
- `src/cpu.rs`, `src/instructions.rs`, `src/draw.rs`, `src/cycle.rs` — the
  executable machine; every operation is proved to do what the model says.
- `src/emulator.rs` — running several cycles, loading and resetting programs.
- `src/laws.rs` — properties proved of every state (call/return, BCD, store
  and load of registers, drawing twice and what a drawing flips, flags, which
  instructions touch the display and memory, the cycle, runs that compose).
- `src/games.rs`, `src/pacing.rs`, `src/hexview.rs`, `src/beep.rs` — choosing
  program files, how many cycles are due at a given time, how the memory view
  marks bytes, and the beep's frequency range.
- `app/` — the egui debugger window, audio, threads and file access.
