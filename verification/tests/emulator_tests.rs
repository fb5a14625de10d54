use chip8::emulator::{EmulatorError, EmulatorState};

#[test]
fn new_emulator_is_stopped_and_empty() {
    let emulator = EmulatorState::new();
    assert!(!emulator.running);
    assert!(emulator.error.is_none());
    assert!(emulator.loaded_rom.is_empty());
    assert_eq!(emulator.loaded_game_name, "None");
    assert_eq!(emulator.cpu.pc, 0x200);
}

#[test]
fn load_game_resets_machine_and_clears_error() {
    let mut emulator = EmulatorState::new();
    emulator.running = true;
    emulator.error = Some(EmulatorError::Message("old".to_string()));
    emulator.cpu.v[3] = 9;
    emulator.load_game(vec![0x60, 0x01], "pong".to_string());
    assert!(!emulator.running);
    assert!(emulator.error.is_none());
    assert_eq!(emulator.loaded_game_name, "pong");
    assert_eq!(emulator.loaded_rom, vec![0x60, 0x01]);
    assert_eq!(emulator.cpu.v[3], 0);
    assert_eq!(&emulator.cpu.memory[0x200..0x202], &[0x60, 0x01]);
}

#[test]
fn reset_reloads_the_program_and_keeps_error() {
    let mut emulator = EmulatorState::new();
    emulator.load_game(vec![0x61, 0x05], "game".to_string());
    emulator.run_steps(1);
    assert_eq!(emulator.cpu.v[1], 5);
    emulator.running = true;
    emulator.error = Some(EmulatorError::Message("kept".to_string()));
    emulator.reset_current_game();
    assert!(!emulator.running);
    assert_eq!(emulator.cpu.v[1], 0);
    assert_eq!(emulator.cpu.pc, 0x200);
    assert_eq!(&emulator.cpu.memory[0x200..0x202], &[0x61, 0x05]);
    assert!(matches!(emulator.error, Some(EmulatorError::Message(ref m)) if m == "kept"));
}

#[test]
fn reset_without_program_gives_fresh_machine() {
    let mut emulator = EmulatorState::new();
    emulator.cpu.memory[0x200] = 0x77;
    emulator.reset_current_game();
    assert_eq!(emulator.cpu.memory[0x200], 0);
}

#[test]
fn run_steps_completes_and_keeps_running() {
    let mut emulator = EmulatorState::new();
    // 7101 (V1 += 1), 1200 (jump back)
    emulator.load_game(vec![0x71, 0x01, 0x12, 0x00], "loop".to_string());
    emulator.running = true;
    let unknown = emulator.run_steps(10);
    assert!(unknown.is_empty());
    assert!(emulator.running);
    assert!(emulator.error.is_none());
    assert_eq!(emulator.cpu.v[1], 5);
}

#[test]
fn run_steps_stops_at_end_of_memory() {
    let mut emulator = EmulatorState::new();
    // 1FFF: jump to the last byte of memory.
    emulator.load_game(vec![0x1F, 0xFF], "edge".to_string());
    emulator.running = true;
    emulator.run_steps(5);
    assert!(!emulator.running);
    assert!(matches!(emulator.error, Some(EmulatorError::PcOutOfBounds(0xFFF))));
    assert_eq!(emulator.cpu.pc, 0xFFF);
}

#[test]
fn run_steps_stops_before_a_fault() {
    let mut emulator = EmulatorState::new();
    // 00EE with the stack pointer past the stack.
    emulator.load_game(vec![0x00, 0xEE], "bad".to_string());
    emulator.cpu.sp = 16;
    emulator.running = true;
    emulator.run_steps(3);
    assert!(!emulator.running);
    assert!(matches!(emulator.error, Some(EmulatorError::Fault(0x200))));
    assert_eq!(emulator.cpu.pc, 0x200);
}

#[test]
fn run_steps_reports_unknown_instructions() {
    let mut emulator = EmulatorState::new();
    emulator.load_game(vec![0x5A, 0xB1, 0x12, 0x00], "odd".to_string());
    let unknown = emulator.run_steps(3);
    assert_eq!(unknown, vec![0x5AB1, 0x5AB1]);
}

#[test]
fn snapshot_copies_everything() {
    let mut emulator = EmulatorState::new();
    emulator.load_game(vec![1, 2, 3], "snap".to_string());
    emulator.running = true;
    emulator.error = Some(EmulatorError::Fault(7));
    let snapshot = emulator.snapshot();
    assert_eq!(snapshot.loaded_rom, vec![1, 2, 3]);
    assert_eq!(snapshot.loaded_game_name, "snap");
    assert!(snapshot.running);
    assert!(matches!(snapshot.error, Some(EmulatorError::Fault(7))));
    assert_eq!(snapshot.cpu.memory, emulator.cpu.memory);
    assert_eq!(snapshot.cpu.pc, emulator.cpu.pc);
}

#[test]
fn pause_and_run_stops_the_emulator() {
    let mut emulator = EmulatorState::new();
    emulator.load_game(vec![0x71, 0x01, 0x12, 0x00], "loop".to_string());
    emulator.running = true;
    let unknown = emulator.pause_and_run(3);
    assert!(unknown.is_empty());
    assert!(!emulator.running);
    assert_eq!(emulator.cpu.v[1], 2);
}

#[test]
fn two_runs_equal_one_longer_run() {
    let program = vec![0x71, 0x01, 0x72, 0x03, 0x12, 0x00];
    let mut split = EmulatorState::new();
    split.load_game(program.clone(), "a".to_string());
    let mut first = split.run_steps(4);
    first.extend(split.run_steps(7));
    let mut whole = EmulatorState::new();
    whole.load_game(program, "a".to_string());
    let all = whole.run_steps(11);
    assert_eq!(first, all);
    assert_eq!(split.cpu.v, whole.cpu.v);
    assert_eq!(split.cpu.pc, whole.cpu.pc);
    assert_eq!(split.cpu.tick_divider_counter, whole.cpu.tick_divider_counter);
}

#[test]
fn run_due_runs_only_when_running_and_due() {
    let mut emulator = EmulatorState::new();
    emulator.load_game(vec![0x71, 0x01, 0x12, 0x00], "loop".to_string());
    assert!(emulator.run_due(4).is_empty());
    assert_eq!(emulator.cpu.v[1], 0);
    emulator.running = true;
    emulator.run_due(0);
    assert_eq!(emulator.cpu.pc, 0x200);
    emulator.run_due(3);
    assert!(emulator.running);
    assert_eq!(emulator.cpu.v[1], 2);
}
