//! The emulator around the machine: the loaded program, whether it runs, and
//! the last error; running a number of cycles at a time.
use vstd::prelude::*;

use crate::cpu::Cpu;
use crate::model::{nibble0, CpuState, MEMORY_SIZE};

verus! {

/// Why the emulator stopped.
#[derive(Clone)]
pub enum EmulatorError {
    /// The program counter reached the end of memory; it holds the program
    /// counter.
    PcOutOfBounds(u16),
    /// The next instruction could not be carried out (see
    /// `CpuState::cycle_faults`); it holds the program counter.
    Fault(u16),
    /// A message from outside the machine, such as a program that could not
    /// be read.
    Message(String),
}

/// How a run of cycles ended.
pub enum RunStop {
    /// Every cycle asked for ran.
    Completed,
    /// The program counter reached the end of memory.
    PcOutOfBounds,
    /// The next instruction could not be carried out.
    Fault,
}

/// Whether a run stops before the cycle from `s`.
pub open spec fn stops(s: CpuState) -> bool {
    s.pc >= MEMORY_SIZE - 1 || s.cycle_faults()
}

/// Why a run stops before the cycle from `s`.
pub open spec fn stop_reason(s: CpuState) -> RunStop {
    if s.pc >= MEMORY_SIZE - 1 {
        RunStop::PcOutOfBounds
    } else {
        RunStop::Fault
    }
}

/// The unknown instruction met by the cycle from `s`, if any.
pub open spec fn unknown_log(s: CpuState) -> Seq<u16> {
    if s.cycle_unknown() {
        seq![s.opcode()]
    } else {
        Seq::empty()
    }
}

/// Up to `steps` cycles from `s`, the `k`-th drawing the random byte
/// `rns[k]`: the final state, the unknown instructions met, and how the run
/// ended.
pub open spec fn run(s: CpuState, steps: nat, rns: Seq<u8>) -> (CpuState, Seq<u16>, RunStop)
    decreases steps,
{
    if steps == 0 {
        (s, Seq::empty(), RunStop::Completed)
    } else if stops(s) {
        (s, Seq::empty(), stop_reason(s))
    } else {
        let rest = run(s.cycle(rns[0]), (steps - 1) as nat, rns.drop_first());
        (rest.0, unknown_log(s) + rest.1, rest.2)
    }
}

/// Whether no cycle of the run of up to `steps` cycles from `s` with the
/// random bytes `rns` executes a Cxkk instruction.
pub open spec fn run_without_rnd(s: CpuState, steps: nat, rns: Seq<u8>) -> bool
    decreases steps,
{
    if steps == 0 || stops(s) {
        true
    } else {
        nibble0(s.opcode()) != 0xC && run_without_rnd(
            s.cycle(rns[0]),
            (steps - 1) as nat,
            rns.drop_first(),
        )
    }
}

/// One more cycle after a completed run.
proof fn lemma_run_step(s: CpuState, k: nat, rns: Seq<u8>, rn: u8)
    requires
        rns.len() == k,
        run(s, k, rns).2 == RunStop::Completed,
        !stops(run(s, k, rns).0),
    ensures
        run(s, k + 1, rns.push(rn)) == (
            run(s, k, rns).0.cycle(rn),
            run(s, k, rns).1 + unknown_log(run(s, k, rns).0),
            RunStop::Completed,
        ),
    decreases k,
{
    if k == 0 {
        assert(rns.push(rn)[0] == rn);
        assert(rns.push(rn).drop_first() =~= Seq::<u8>::empty());
        assert(unknown_log(s) + Seq::<u16>::empty() =~= Seq::<u16>::empty() + unknown_log(s));
        assert(!stops(s));
        let rest = run(s.cycle(rn), 0, rns.push(rn).drop_first());
        assert(rest == (s.cycle(rn), Seq::<u16>::empty(), RunStop::Completed));
        let r = run(s, 1, rns.push(rn));
        assert(r.0 == s.cycle(rn));
        assert(r.1 == unknown_log(s) + Seq::<u16>::empty());
    } else {
        assert(!stops(s));
        let t = s.cycle(rns[0]);
        assert(rns.push(rn)[0] == rns[0]);
        assert(rns.push(rn).drop_first() =~= rns.drop_first().push(rn));
        lemma_run_step(t, (k - 1) as nat, rns.drop_first(), rn);
        let inner = run(t, (k - 1) as nat, rns.drop_first());
        assert(unknown_log(s) + (inner.1 + unknown_log(inner.0)) =~= (unknown_log(s) + inner.1)
            + unknown_log(inner.0));
        let r = run(s, k + 1, rns.push(rn));
        assert(r.0 == inner.0.cycle(rn));
        assert(r.1 == unknown_log(s) + (inner.1 + unknown_log(inner.0)));
    }
}

/// A completed run that reaches a stopping state stops there, however many
/// more cycles were asked for.
proof fn lemma_run_stop(s: CpuState, k: nat, rns: Seq<u8>, extra: Seq<u8>)
    requires
        rns.len() == k,
        extra.len() >= 1,
        run(s, k, rns).2 == RunStop::Completed,
        stops(run(s, k, rns).0),
    ensures
        run(s, k + extra.len(), rns + extra) == (
            run(s, k, rns).0,
            run(s, k, rns).1,
            stop_reason(run(s, k, rns).0),
        ),
    decreases k,
{
    if k == 0 {
        assert(rns + extra =~= extra);
        assert(Seq::<u16>::empty() =~= run(s, k, rns).1);
    } else {
        let t = s.cycle(rns[0]);
        assert((rns + extra).drop_first() =~= rns.drop_first() + extra);
        assert((rns + extra)[0] == rns[0]);
        lemma_run_stop(t, (k - 1) as nat, rns.drop_first(), extra);
    }
}

/// A picture of the emulator at one moment.
#[derive(Clone)]
pub struct EmulatorSnapshot {
    pub cpu: Cpu,
    pub loaded_rom: Vec<u8>,
    pub loaded_game_name: String,
    pub running: bool,
    pub error: Option<EmulatorError>,
}

/// The emulator: a machine, the program it was loaded with, and whether it
/// runs.
pub struct EmulatorState {
    pub cpu: Cpu,
    pub loaded_rom: Vec<u8>,
    pub loaded_game_name: String,
    pub running: bool,
    pub error: Option<EmulatorError>,
}

/// An equal copy of an error.
fn copy_error(error: &Option<EmulatorError>) -> (copy: Option<EmulatorError>)
    ensures
        copy == *error,
{
    match error {
        None => None,
        Some(EmulatorError::PcOutOfBounds(pc)) => Some(EmulatorError::PcOutOfBounds(*pc)),
        Some(EmulatorError::Fault(pc)) => Some(EmulatorError::Fault(*pc)),
        Some(EmulatorError::Message(text)) => Some(EmulatorError::Message(text.clone())),
    }
}

impl EmulatorState {
    /// A stopped emulator with a fresh machine, no program, the name "None"
    /// and no error.
    pub fn new() -> (emulator: EmulatorState)
        ensures
            emulator.cpu@ == CpuState::initial(),
            emulator.loaded_rom@ == Seq::<u8>::empty(),
            emulator.loaded_game_name@ == "None"@,
            !emulator.running,
            emulator.error is None,
    {
        EmulatorState {
            cpu: Cpu::new(),
            loaded_rom: Vec::new(),
            loaded_game_name: "None".to_owned(),
            running: false,
            error: None,
        }
    }

    /// Stops the emulator and loads a program into a fresh machine; the error
    /// is cleared.
    pub fn load_game(&mut self, rom: Vec<u8>, name: String)
        ensures
            final(self).cpu@ == CpuState::initial().load(rom@),
            final(self).loaded_rom@ == rom@,
            final(self).loaded_game_name == name,
            !final(self).running,
            final(self).error is None,
    {
        self.running = false;
        self.cpu = Cpu::new();
        self.loaded_rom = rom;
        self.loaded_game_name = name;
        self.cpu.load_game(self.loaded_rom.as_slice());
        self.error = None;
    }

    /// Stops the emulator and starts the loaded program afresh. The error is
    /// left as it is.
    pub fn reset_current_game(&mut self)
        ensures
            final(self).cpu@ == if old(self).loaded_rom@.len() > 0 {
                CpuState::initial().load(old(self).loaded_rom@)
            } else {
                CpuState::initial()
            },
            final(self).loaded_rom@ == old(self).loaded_rom@,
            final(self).loaded_game_name == old(self).loaded_game_name,
            !final(self).running,
            final(self).error == old(self).error,
    {
        self.running = false;
        self.cpu = Cpu::new();
        if !self.loaded_rom.is_empty() {
            self.cpu.load_game(self.loaded_rom.as_slice());
        }
    }

    /// Runs up to `steps` cycles. The run stops early, stopping the emulator
    /// and recording why, when the program counter reaches the end of memory
    /// or the next instruction cannot be carried out. Returns the unknown
    /// instructions met, in order.
    pub fn run_steps(&mut self, steps: usize) -> (unknown: Vec<u16>)
        ensures
            exists|rns: Seq<u8>|
                rns.len() == steps && {
                    let r = #[trigger] run(old(self).cpu@, steps as nat, rns);
                    &&& final(self).cpu@ == r.0
                    &&& unknown@ == r.1
                    &&& r.2 == RunStop::Completed ==> final(self).running == old(self).running
                        && final(self).error == old(self).error
                    &&& r.2 == RunStop::PcOutOfBounds ==> !final(self).running
                        && final(self).error == Some(EmulatorError::PcOutOfBounds(r.0.pc))
                    &&& r.2 == RunStop::Fault ==> !final(self).running && final(self).error
                        == Some(EmulatorError::Fault(r.0.pc))
                },
            final(self).loaded_rom@ == old(self).loaded_rom@,
            final(self).loaded_game_name == old(self).loaded_game_name,
    {
        let ghost s = old(self).cpu@;
        let mut unknown: Vec<u16> = Vec::new();
        let mut k: usize = 0;
        let mut stopped: bool = false;
        assert(run(s, 0, Seq::<u8>::empty()) == (self.cpu@, unknown@, RunStop::Completed));
        while k < steps && !stopped
            invariant
                k <= steps,
                s == old(self).cpu@,
                self.loaded_rom@ == old(self).loaded_rom@,
                self.loaded_game_name == old(self).loaded_game_name,
                !stopped ==> self.running == old(self).running && self.error == old(self).error,
                !stopped ==> exists|rns: Seq<u8>|
                    rns.len() == k && #[trigger] run(s, k as nat, rns) == (
                        self.cpu@,
                        unknown@,
                        RunStop::Completed,
                    ),
                stopped ==> k < steps && exists|rns: Seq<u8>|
                    rns.len() == steps && {
                        let r = #[trigger] run(s, steps as nat, rns);
                        &&& self.cpu@ == r.0
                        &&& unknown@ == r.1
                        &&& r.2 == RunStop::PcOutOfBounds ==> !self.running && self.error == Some(
                            EmulatorError::PcOutOfBounds(r.0.pc),
                        )
                        &&& r.2 == RunStop::Fault ==> !self.running && self.error == Some(
                            EmulatorError::Fault(r.0.pc),
                        )
                        &&& r.2 != RunStop::Completed
                    },
            decreases steps - k + (if stopped { 0int } else { 1int }),
        {
            let ghost rns = choose|rns: Seq<u8>|
                rns.len() == k && #[trigger] run(s, k as nat, rns) == (
                    self.cpu@,
                    unknown@,
                    RunStop::Completed,
                );
            let ghost extra = Seq::new((steps - k) as nat, |j: int| 0u8);
            if (self.cpu.pc as usize) >= MEMORY_SIZE - 1 {
                self.running = false;
                self.error = Some(EmulatorError::PcOutOfBounds(self.cpu.pc));
                stopped = true;
                proof {
                    lemma_run_stop(s, k as nat, rns, extra);
                    assert(run(s, steps as nat, rns + extra) == (self.cpu@, unknown@, RunStop::PcOutOfBounds));
                }
            } else if self.cpu.cycle_would_fault() {
                self.running = false;
                self.error = Some(EmulatorError::Fault(self.cpu.pc));
                stopped = true;
                proof {
                    lemma_run_stop(s, k as nat, rns, extra);
                    assert(run(s, steps as nat, rns + extra) == (self.cpu@, unknown@, RunStop::Fault));
                }
            } else {
                let ghost before = self.cpu@;
                let ghost log = unknown@;
                if let Some(op) = self.cpu.execute_cycle() {
                    unknown.push(op);
                }
                proof {
                    let rn = choose|rn: u8| self.cpu@ == #[trigger] before.cycle(rn);
                    lemma_run_step(s, k as nat, rns, rn);
                    assert(unknown@ =~= log + unknown_log(before));
                    assert(run(s, (k + 1) as nat, rns.push(rn)) == (self.cpu@, unknown@, RunStop::Completed));
                }
                k = k + 1;
            }
        }
        unknown
    }

    /// Runs the cycles that fell due, if the emulator is running and any did;
    /// otherwise changes nothing (see `run_steps`).
    pub fn run_due(&mut self, due: usize) -> (unknown: Vec<u16>)
        ensures
            !(old(self).running && due > 0) ==> *final(self) == *old(self) && unknown@
                == Seq::<u16>::empty(),
            old(self).running && due > 0 ==> exists|rns: Seq<u8>|
                rns.len() == due && {
                    let r = #[trigger] run(old(self).cpu@, due as nat, rns);
                    &&& final(self).cpu@ == r.0
                    &&& unknown@ == r.1
                    &&& r.2 == RunStop::Completed ==> final(self).running && final(self).error
                        == old(self).error
                    &&& r.2 == RunStop::PcOutOfBounds ==> !final(self).running
                        && final(self).error == Some(EmulatorError::PcOutOfBounds(r.0.pc))
                    &&& r.2 == RunStop::Fault ==> !final(self).running && final(self).error
                        == Some(EmulatorError::Fault(r.0.pc))
                },
            final(self).loaded_rom@ == old(self).loaded_rom@,
            final(self).loaded_game_name == old(self).loaded_game_name,
    {
        if due > 0 && self.running {
            self.run_steps(due)
        } else {
            Vec::new()
        }
    }

    /// Stops the emulator, then runs up to `steps` cycles (see `run_steps`).
    pub fn pause_and_run(&mut self, steps: usize) -> (unknown: Vec<u16>)
        ensures
            exists|rns: Seq<u8>|
                rns.len() == steps && {
                    let r = #[trigger] run(old(self).cpu@, steps as nat, rns);
                    &&& final(self).cpu@ == r.0
                    &&& unknown@ == r.1
                    &&& !final(self).running
                    &&& r.2 == RunStop::Completed ==> final(self).error == old(self).error
                    &&& r.2 == RunStop::PcOutOfBounds ==> final(self).error == Some(
                        EmulatorError::PcOutOfBounds(r.0.pc),
                    )
                    &&& r.2 == RunStop::Fault ==> final(self).error == Some(
                        EmulatorError::Fault(r.0.pc),
                    )
                },
            final(self).loaded_rom@ == old(self).loaded_rom@,
            final(self).loaded_game_name == old(self).loaded_game_name,
    {
        self.running = false;
        self.run_steps(steps)
    }

    /// A copy of the emulator's state.
    pub fn snapshot(&self) -> (snapshot: EmulatorSnapshot)
        ensures
            snapshot.cpu == self.cpu,
            snapshot.loaded_rom@ == self.loaded_rom@,
            snapshot.loaded_game_name == self.loaded_game_name,
            snapshot.running == self.running,
            snapshot.error == self.error,
    {
        let loaded_rom: Vec<u8> = self.loaded_rom.clone();
        assert(loaded_rom@ =~= self.loaded_rom@);
        EmulatorSnapshot {
            cpu: self.cpu,
            loaded_rom,
            loaded_game_name: self.loaded_game_name.clone(),
            running: self.running,
            error: copy_error(&self.error),
        }
    }
}

} // verus!
